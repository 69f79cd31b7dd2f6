//! Calendar dates of the proleptic Gregorian calendar.

use vstd::prelude::*;
use vstd::string::StrSliceExecFns;

use crate::error::{CliError, ErrorKind};
use crate::text::{
    digit_char, digit_value, is_digit, lemma_digit_char, lemma_digit_char_order,
    lemma_text_le_from, lemma_zero_padded_2, lemma_zero_padded_4, ordered_from, padded_int,
    pow10, push_padded_int, text_le,
};

verus! {

/// Whether `year` is a leap year: divisible by 4 and not by 100, or divisible by 400.
pub open spec fn is_leap_year(year: int) -> bool {
    (year % 4 == 0 && year % 100 != 0) || year % 400 == 0
}

/// The number of days of `month` in `year`; 0 where `month` is not in 1..=12.
pub open spec fn days_in_month(year: int, month: int) -> int {
    if month == 2 {
        if is_leap_year(year) {
            29
        } else {
            28
        }
    } else if month == 4 || month == 6 || month == 9 || month == 11 {
        30
    } else if 1 <= month <= 12 {
        31
    } else {
        0
    }
}

/// A calendar date. Any triple of integers can be held; `is_valid` tells the dates apart.
#[derive(Debug, Clone, Copy, PartialEq, Eq, Structural)]
pub struct Date {
    pub year: i32,
    pub month: i32,
    pub day: i32,
}

/// The day count of `month` in `year`, 0 for a month outside 1..=12.
pub fn num_days(year: i32, month: i32) -> (days: i32)
    ensures
        days == days_in_month(year as int, month as int),
{
    let leap = (year % 4 == 0 && year % 100 != 0) || (year % 400 == 0);
    match month {
        1 => 31,
        2 => if leap { 29 } else { 28 },
        3 => 31,
        4 => 30,
        5 => 31,
        6 => 30,
        7 => 31,
        8 => 31,
        9 => 30,
        10 => 31,
        11 => 30,
        12 => 31,
        _ => 0,
    }
}

/// The text of a date: the year in at least four digits, the month and the day in at
/// least two, with hyphens between.
pub open spec fn date_text(d: Date) -> Seq<char> {
    padded_int(d.year as int, 4) + seq!['-'] + padded_int(d.month as int, 2) + seq!['-']
        + padded_int(d.day as int, 2)
}

/// Whether `s` is four digits, a hyphen, two digits, a hyphen and two digits.
pub open spec fn has_date_shape(s: Seq<char>) -> bool {
    &&& s.len() == 10
    &&& is_digit(s[0])
    &&& is_digit(s[1])
    &&& is_digit(s[2])
    &&& is_digit(s[3])
    &&& s[4] == '-'
    &&& is_digit(s[5])
    &&& is_digit(s[6])
    &&& s[7] == '-'
    &&& is_digit(s[8])
    &&& is_digit(s[9])
}

/// The numbers that a text of the shape of a date holds, whether or not the calendar
/// has such a date.
pub open spec fn date_fields(s: Seq<char>) -> Date {
    Date {
        year: (1000 * digit_value(s[0]) + 100 * digit_value(s[1]) + 10 * digit_value(s[2])
            + digit_value(s[3])) as i32,
        month: (10 * digit_value(s[5]) + digit_value(s[6])) as i32,
        day: (10 * digit_value(s[8]) + digit_value(s[9])) as i32,
    }
}

/// The date that `s` denotes: `s` has the shape of a date and the calendar has it.
pub open spec fn parse_date(s: Seq<char>) -> Option<Date> {
    if has_date_shape(s) && date_fields(s).valid() {
        Some(date_fields(s))
    } else {
        None
    }
}

/// The day before `d`: the last day of the month before, where `d` is the first of a
/// month or its day is lower still.
pub open spec fn day_before(d: Date) -> Date {
    if d.day > 1 {
        Date { year: d.year, month: d.month, day: (d.day - 1) as i32 }
    } else if d.month > 1 {
        Date {
            year: d.year,
            month: (d.month - 1) as i32,
            day: days_in_month(d.year as int, d.month - 1) as i32,
        }
    } else {
        Date { year: (d.year - 1) as i32, month: 12, day: 31 }
    }
}

/// The local date of this moment: `chrono::Local::now()`, read with `year`, `month` and
/// `day` of `chrono::Datelike`. Which date comes back is not stated, only what chrono
/// gives on every return. The three numbers are a date of the calendar: the month is
/// from 1 to 12 and the day from 1 to the length of that month. The year is a value of 19
/// bits with a sign, and it is 1969 at least: chrono stops the program where the system
/// clock stands before 1970, and a local time is less than a day away from universal
/// time. chrono also stops the program where the time zone data give no offset.
#[verifier::external_body]
fn local_date() -> (r: (i32, u32, u32))
    ensures
        1969 <= r.0 <= 262143,
        1 <= r.1 <= 12,
        1 <= r.2 <= days_in_month(r.0 as int, r.1 as int),
{
    let now = chrono::Local::now();
    (chrono::Datelike::year(&now), chrono::Datelike::month(&now), chrono::Datelike::day(&now))
}

/// The value of the digit at position `i` of `s`, if there is a digit.
fn digit_at(s: &str, i: usize) -> (r: Option<i32>)
    requires
        i < s@.len(),
    ensures
        r is Some <==> is_digit(s@[i as int]),
        r matches Some(v) ==> v == digit_value(s@[i as int]),
{
    let c = s.get_char(i);
    if '0' <= c && c <= '9' {
        Some((c as u32 - 48) as i32)
    } else {
        None
    }
}

/// The number that the `count` characters of `s` from position `from` on denote, if
/// they are all digits.
fn number_at(s: &str, from: usize, count: usize) -> (r: Option<i32>)
    requires
        from + count <= s@.len(),
        from <= 8,
        1 <= count <= 4,
    ensures
        r is Some <==> (forall|i: int| from <= i < from + count ==> is_digit(#[trigger] s@[i])),
        r matches Some(v) ==> v == digits_value(s@.subrange(from as int, from + count)),
{
    let mut value: i32 = 0;
    let mut done: usize = 0;
    while done < count
        invariant
            done <= count <= 4,
            from <= 8,
            from + count <= s@.len(),
            forall|i: int| from <= i < from + done ==> is_digit(#[trigger] s@[i]),
            value == digits_value(s@.subrange(from as int, from + done)),
            0 <= value < pow10(done as nat),
        decreases count - done,
    {
        match digit_at(s, from + done) {
            Some(v) => {
                proof {
                    reveal_with_fuel(pow10, 5);
                }
                assert(s@.subrange(from as int, from + done + 1).drop_last() =~= s@.subrange(
                    from as int,
                    from + done,
                ));
                value = 10 * value + v;
                done = done + 1;
            },
            None => {
                return None;
            },
        }
    }
    Some(value)
}

/// The number that a sequence of digits denotes.
spec fn digits_value(s: Seq<char>) -> int
    decreases s.len(),
{
    if s.len() == 0 {
        0
    } else {
        10 * digits_value(s.drop_last()) + digit_value(s.last())
    }
}

impl Date {
    /// Whether the calendar has this date: a year from 1 on, a month from 1 to 12, a day
    /// from 1 to the length of that month.
    pub open spec fn valid(&self) -> bool {
        &&& self.year >= 1
        &&& 1 <= self.month <= 12
        &&& 1 <= self.day <= days_in_month(self.year as int, self.month as int)
    }

    /// Whether the calendar has this date.
    pub fn is_valid(&self) -> (ok: bool)
        ensures
            ok == self.valid(),
    {
        let m = self.month;
        let d = self.day;
        let y = self.year;
        if y < 1 {
            return false;
        }
        if m < 1 || m > 12 {
            return false;
        }
        let last_day = num_days(y, m);
        if d < 1 || d > last_day {
            return false;
        }
        true
    }

    /// Reads a date written as `YYYY-MM-DD`. Anything else, and a date that the calendar
    /// does not have, is a parse error.
    pub fn from_string(date: &str) -> (r: Result<Date, CliError>)
        ensures
            match r {
                Ok(d) => parse_date(date@) == Some(d),
                Err(e) => parse_date(date@) is None && e.kind == ErrorKind::Parse,
            },
    {
        if date.unicode_len() != 10 {
            return Err(
                CliError::about(
                    ErrorKind::Parse,
                    "failed to parse date ",
                    date,
                    ", expected YYYY-MM-DD format",
                ),
            );
        }
        if date.get_char(4) != '-' || date.get_char(7) != '-' {
            return Err(
                CliError::about(
                    ErrorKind::Parse,
                    "failed to parse date ",
                    date,
                    ", expected YYYY-MM-DD format",
                ),
            );
        }
        let year = match number_at(date, 0, 4) {
            Some(y) => y,
            None => {
                return Err(
                    CliError::about(
                        ErrorKind::Parse,
                        "failed to parse year in ",
                        date,
                        ", expected YYYY",
                    ),
                );
            },
        };
        let month = match number_at(date, 5, 2) {
            Some(m) => m,
            None => {
                return Err(
                    CliError::about(
                        ErrorKind::Parse,
                        "failed to parse month in ",
                        date,
                        ", expected MM",
                    ),
                );
            },
        };
        let day = match number_at(date, 8, 2) {
            Some(d) => d,
            None => {
                return Err(
                    CliError::about(
                        ErrorKind::Parse,
                        "failed to parse day in ",
                        date,
                        ", expected DD",
                    ),
                );
            },
        };
        proof {
            lemma_digits_value_4(date@.subrange(0, 4));
            lemma_digits_value_2(date@.subrange(5, 7));
            lemma_digits_value_2(date@.subrange(8, 10));
        }
        let result = Date { year, month, day };
        if result.is_valid() {
            Ok(result)
        } else {
            Err(CliError::about(ErrorKind::Parse, "invalid date ", date, ""))
        }
    }

    /// Writes the date as `YYYY-MM-DD`. A date that the calendar does not have is a
    /// validation error.
    pub fn to_string(&self) -> (r: Result<String, CliError>)
        ensures
            match r {
                Ok(s) => self.valid() && s@ == date_text(*self),
                Err(e) => !self.valid() && e.kind == ErrorKind::Validation,
            },
    {
        let mut result = String::new();
        push_padded_int(&mut result, self.year, 4);
        result.append("-");
        push_padded_int(&mut result, self.month, 2);
        result.append("-");
        push_padded_int(&mut result, self.day, 2);
        proof {
            reveal_strlit("-");
            assert("-"@ =~= seq!['-']);
            assert(result@ =~= date_text(*self));
        }
        if !self.is_valid() {
            return Err(
                CliError::about(ErrorKind::Validation, "invalid date ", result.as_str(), ""),
            );
        }
        Ok(result)
    }

    /// The local date of this moment. Which date it is depends on the clock; it is a
    /// date of the calendar, of the year 1969 at least. The program stops where the
    /// system clock stands before 1970 or the time zone data give no offset.
    pub fn today() -> (r: Date)
        ensures
            r.valid(),
            1969 <= r.year <= 262143,
    {
        let (year, month, day) = local_date();
        Date { year, month: month as i32, day: day as i32 }
    }

    /// The day before the local date of this moment. Which date it is depends on the
    /// clock; it is a date of the calendar, of the year 1968 at least. The program stops
    /// where the system clock stands before 1970 or the time zone data give no offset.
    pub fn yesterday() -> (r: Date)
        ensures
            r.valid(),
            1968 <= r.year <= 262143,
    {
        Date::today().previous()
    }

    /// The day before this one.
    pub fn previous(&self) -> (r: Date)
        requires
            self.year > i32::MIN,
        ensures
            r == day_before(*self),
            self.valid() && !(self.year == 1 && self.month == 1 && self.day == 1) ==> r.valid(),
    {
        if self.day > 1 {
            Date { year: self.year, month: self.month, day: self.day - 1 }
        } else if self.month > 1 {
            Date {
                year: self.year,
                month: self.month - 1,
                day: num_days(self.year, self.month - 1),
            }
        } else {
            Date { year: self.year - 1, month: 12, day: 31 }
        }
    }
}

proof fn lemma_digits_value_2(s: Seq<char>)
    requires
        s.len() == 2,
    ensures
        digits_value(s) == 10 * digit_value(s[0]) + digit_value(s[1]),
{
    reveal_with_fuel(digits_value, 3);
    assert(s.drop_last().last() == s[0]);
}

proof fn lemma_digits_value_4(s: Seq<char>)
    requires
        s.len() == 4,
    ensures
        digits_value(s) == 1000 * digit_value(s[0]) + 100 * digit_value(s[1]) + 10 * digit_value(
            s[2],
        ) + digit_value(s[3]),
{
    reveal_with_fuel(digits_value, 5);
    let a = s.drop_last();
    let b = a.drop_last();
    let c = b.drop_last();
    assert(a.last() == s[2]);
    assert(b.last() == s[1]);
    assert(c.last() == s[0]);
}

/// The 29th of February of a year from 1 on is a date of the calendar exactly where the
/// year is divisible by 4 and either not divisible by 100 or divisible by 400.
pub proof fn lemma_february_29(year: i32)
    requires
        year >= 1,
    ensures
        (Date { year, month: 2, day: 29 }).valid() <==> (year % 4 == 0 && (year % 100 != 0 || year
            % 400 == 0)),
{
}

/// The four digits of `year`, the two of `month` and the two of `day`, with hyphens
/// between, for numbers that have no more digits than that.
pub open spec fn date_chars(year: int, month: int, day: int) -> Seq<char> {
    seq![
        digit_char(year / 1000),
        digit_char(year / 100 % 10),
        digit_char(year / 10 % 10),
        digit_char(year % 10),
        '-',
        digit_char(month / 10),
        digit_char(month % 10),
        '-',
        digit_char(day / 10),
        digit_char(day % 10),
    ]
}

/// The text of a date of the calendar up to the year 9999 is ten characters: the digits
/// of its three numbers, with hyphens between.
pub proof fn lemma_date_text_chars(d: Date)
    requires
        d.valid(),
        d.year <= 9999,
    ensures
        date_text(d) == date_chars(d.year as int, d.month as int, d.day as int),
{
    let y = d.year as int;
    let m = d.month as int;
    let n = d.day as int;
    let year = padded_int(y, 4);
    let month = padded_int(m, 2);
    let day = padded_int(n, 2);
    lemma_zero_padded_4(y as nat);
    lemma_zero_padded_2(m as nat);
    lemma_zero_padded_2(n as nat);
    let text = date_text(d);
    assert(text == year + seq!['-'] + month + seq!['-'] + day);
    assert(year.len() == 4 && month.len() == 2 && day.len() == 2);
    assert(text.len() == 10);
    assert(text[0] == year[0] && text[1] == year[1] && text[2] == year[2] && text[3] == year[3]);
    assert(text[4] == '-' && text[7] == '-');
    assert(text[5] == month[0] && text[6] == month[1]);
    assert(text[8] == day[0] && text[9] == day[1]);
    assert(text =~= date_chars(y, m, n));
}

/// Reading the text of a date gives the date back, for every date of the calendar up to
/// the year 9999.
pub proof fn lemma_parse_date_text(d: Date)
    requires
        d.valid(),
        d.year <= 9999,
    ensures
        has_date_shape(date_text(d)),
        parse_date(date_text(d)) == Some(d),
{
    lemma_date_text_chars(d);
    let (y3, y2, y1, y0) = lemma_four_digits(d.year as int);
    let (m1, m0) = lemma_two_digits(d.month as int);
    let (n1, n0) = lemma_two_digits(d.day as int);
    lemma_digit_char(y3);
    lemma_digit_char(y2);
    lemma_digit_char(y1);
    lemma_digit_char(y0);
    lemma_digit_char(m1);
    lemma_digit_char(m0);
    lemma_digit_char(n1);
    lemma_digit_char(n0);
    let text = date_text(d);
    assert(text == seq![
        digit_char(y3),
        digit_char(y2),
        digit_char(y1),
        digit_char(y0),
        '-',
        digit_char(m1),
        digit_char(m0),
        '-',
        digit_char(n1),
        digit_char(n0),
    ]);
    assert(has_date_shape(text));
    assert(date_fields(text).year == d.year);
    assert(date_fields(text).month == d.month);
    assert(date_fields(text).day == d.day);
}

/// The text of a date that was read is the text that it was read from, and its year is
/// 9999 at most.
pub proof fn lemma_date_text_parsed(s: Seq<char>, d: Date)
    requires
        parse_date(s) == Some(d),
    ensures
        date_text(d) == s,
        d.year <= 9999,
{
    let y = d.year as int;
    let m = d.month as int;
    let n = d.day as int;
    assert(d == date_fields(s));
    assert(y == 1000 * digit_value(s[0]) + 100 * digit_value(s[1]) + 10 * digit_value(s[2])
        + digit_value(s[3]));
    assert(m == 10 * digit_value(s[5]) + digit_value(s[6]));
    assert(n == 10 * digit_value(s[8]) + digit_value(s[9]));
    lemma_date_text_chars(d);
    let (y3, y2, y1, y0) = lemma_four_digits(y);
    let (m1, m0) = lemma_two_digits(m);
    let (n1, n0) = lemma_two_digits(n);
    assert(y3 == digit_value(s[0]) && y2 == digit_value(s[1]) && y1 == digit_value(s[2]) && y0
        == digit_value(s[3]));
    assert(m1 == digit_value(s[5]) && m0 == digit_value(s[6]));
    assert(n1 == digit_value(s[8]) && n0 == digit_value(s[9]));
    assert(date_chars(y, m, n) =~= s);
}

/// Whether `a` is `b` or comes before it in the calendar.
pub open spec fn date_le(a: Date, b: Date) -> bool {
    ||| a.year < b.year
    ||| a.year == b.year && a.month < b.month
    ||| a.year == b.year && a.month == b.month && a.day <= b.day
}

/// The texts of two dates stand in the order of the dates, for dates of the calendar up to
/// the year 9999. This is what lets the store pick the dates of a range by their texts.
pub proof fn lemma_date_text_order(a: Date, b: Date)
    requires
        a.valid(),
        a.year <= 9999,
        b.valid(),
        b.year <= 9999,
    ensures
        text_le(date_text(a), date_text(b)) <==> date_le(a, b),
{
    lemma_date_text_chars(a);
    lemma_date_text_chars(b);
    let s = date_text(a);
    let t = date_text(b);
    lemma_text_le_from(s, t, 0);
    assert(s.skip(0) =~= s);
    assert(t.skip(0) =~= t);
    let (a3, a2, a1, a0) = lemma_four_digits(a.year as int);
    let (b3, b2, b1, b0) = lemma_four_digits(b.year as int);
    let (am1, am0) = lemma_two_digits(a.month as int);
    let (bm1, bm0) = lemma_two_digits(b.month as int);
    let (ad1, ad0) = lemma_two_digits(a.day as int);
    let (bd1, bd0) = lemma_two_digits(b.day as int);
    lemma_digit_char_order(a3, b3);
    lemma_digit_char_order(a2, b2);
    lemma_digit_char_order(a1, b1);
    lemma_digit_char_order(a0, b0);
    lemma_digit_char_order(am1, bm1);
    lemma_digit_char_order(am0, bm0);
    lemma_digit_char_order(ad1, bd1);
    lemma_digit_char_order(ad0, bd0);
    assert(ordered_from(s, t, 10));
    assert(ordered_from(s, t, 9) <==> ad0 <= bd0);
    assert(ordered_from(s, t, 8) <==> a.day <= b.day);
    assert(ordered_from(s, t, 7) <==> a.day <= b.day);
    assert(ordered_from(s, t, 6) <==> (am0 < bm0 || (am0 == bm0 && a.day <= b.day)));
    let months = a.month < b.month || (a.month == b.month && a.day <= b.day);
    assert(ordered_from(s, t, 5) <==> months);
    assert(ordered_from(s, t, 4) <==> months);
    assert(ordered_from(s, t, 3) <==> (a0 < b0 || (a0 == b0 && months)));
    assert(ordered_from(s, t, 2) <==> (10 * a1 + a0 < 10 * b1 + b0 || (a1 == b1 && a0 == b0
        && months)));
    assert(ordered_from(s, t, 1) <==> (100 * a2 + 10 * a1 + a0 < 100 * b2 + 10 * b1 + b0 || (a2
        == b2 && a1 == b1 && a0 == b0 && months)));
    assert(ordered_from(s, t, 0) <==> (a.year < b.year || (a.year == b.year && months)));
}

/// The two digits of a number below 100.
proof fn lemma_two_digits(x: int) -> (d: (int, int))
    requires
        0 <= x <= 99,
    ensures
        d.0 == x / 10,
        d.1 == x % 10,
        0 <= d.0 <= 9,
        0 <= d.1 <= 9,
        x == 10 * d.0 + d.1,
{
    (x / 10, x % 10)
}

/// The four digits of a number below 10000.
proof fn lemma_four_digits(x: int) -> (d: (int, int, int, int))
    requires
        0 <= x <= 9999,
    ensures
        d.0 == x / 1000,
        d.1 == x / 100 % 10,
        d.2 == x / 10 % 10,
        d.3 == x % 10,
        0 <= d.0 <= 9,
        0 <= d.1 <= 9,
        0 <= d.2 <= 9,
        0 <= d.3 <= 9,
        x == 1000 * d.0 + 100 * d.1 + 10 * d.2 + d.3,
{
    let tens = x / 10;
    let hundreds = tens / 10;
    let thousands = hundreds / 10;
    assert(x == 10 * tens + x % 10);
    assert(tens == 10 * hundreds + tens % 10);
    assert(hundreds == 10 * thousands + hundreds % 10);
    assert(hundreds == x / 100);
    assert(thousands == x / 1000);
    (thousands, hundreds % 10, tens % 10, x % 10)
}

} // verus!
