//! A moment of local time and the stamp that names a backup made at it.

use vstd::prelude::*;
use vstd::string::*;

verus! {

/// The pattern of a stamp: year, month and day, then hour, minute and
/// second, as `YYYY-MM-DD-HHMMSS`.
pub const STAMP_PATTERN: &'static str = "%Y-%m-%d-%H%M%S";

/// A date and a time of day, as plain numbers.
pub struct Moment {
    pub year: int,
    pub month: int,
    pub day: int,
    pub hour: int,
    pub minute: int,
    pub second: int,
}

pub open spec fn is_leap_year(year: int) -> bool {
    year % 4 == 0 && (year % 100 != 0 || year % 400 == 0)
}

pub open spec fn days_in_month(year: int, month: int) -> int {
    if month == 2 {
        if is_leap_year(year) {
            29
        } else {
            28
        }
    } else if month == 4 || month == 6 || month == 9 || month == 11 {
        30
    } else {
        31
    }
}

/// A day of the Gregorian calendar in the years 0 to 9999, and a time of
/// that day.
pub open spec fn on_calendar(m: Moment) -> bool {
    &&& 0 <= m.year <= 9999
    &&& 1 <= m.month <= 12
    &&& 1 <= m.day <= days_in_month(m.year, m.month)
    &&& 0 <= m.hour < 24
    &&& 0 <= m.minute < 60
    &&& 0 <= m.second < 60
}

/// The decimal digit for `n`, where `n` is between 0 and 9.
pub open spec fn digit(n: int) -> char {
    (('0' as int) + n) as char
}

/// `n` in two decimal digits, where `n` is between 0 and 99.
pub open spec fn two_digits(n: int) -> Seq<char> {
    seq![digit(n / 10), digit(n % 10)]
}

/// The stamp of a moment: `YYYY-MM-DD-HHMMSS`, every number padded with
/// zeros to its width.
pub open spec fn stamp_text(m: Moment) -> Seq<char> {
    two_digits(m.year / 100) + two_digits(m.year % 100) + seq!['-'] + two_digits(m.month) + seq![
        '-',
    ] + two_digits(m.day) + seq!['-'] + two_digits(m.hour) + two_digits(m.minute) + two_digits(
        m.second,
    )
}

/// A character that a stamp may hold: a decimal digit or a hyphen.
pub open spec fn is_stamp_char(c: char) -> bool {
    c == '-' || ('0' as int) <= (c as int) <= ('9' as int)
}

/// Two digits say which number they stand for.
pub proof fn lemma_two_digits(n: int)
    requires
        0 <= n <= 99,
    ensures
        two_digits(n).len() == 2,
        is_stamp_char(two_digits(n)[0]),
        is_stamp_char(two_digits(n)[1]),
        n == 10 * ((two_digits(n)[0] as int) - ('0' as int)) + ((two_digits(n)[1] as int) - (
        '0' as int)),
{
}

/// A stamp has 17 characters, each a digit or a hyphen, so that it can
/// stand in a file's name.
pub proof fn law_stamp_shape(m: Moment)
    requires
        on_calendar(m),
    ensures
        stamp_text(m).len() == 17,
        forall|i: int| 0 <= i < 17 ==> is_stamp_char(#[trigger] stamp_text(m)[i]),
{
    let s = stamp_text(m);
    lemma_two_digits(m.year / 100);
    lemma_two_digits(m.year % 100);
    lemma_two_digits(m.month);
    lemma_two_digits(m.day);
    lemma_two_digits(m.hour);
    lemma_two_digits(m.minute);
    lemma_two_digits(m.second);
    lemma_stamp_parts(m);
    assert forall|i: int| 0 <= i < 17 implies is_stamp_char(#[trigger] s[i]) by {
        if i < 2 {
            assert(s[i] == two_digits(m.year / 100)[i]);
        } else if i < 4 {
            assert(s[i] == two_digits(m.year % 100)[i - 2]);
        } else if i == 4 {
        } else if i < 7 {
            assert(s[i] == two_digits(m.month)[i - 5]);
        } else if i == 7 {
        } else if i < 10 {
            assert(s[i] == two_digits(m.day)[i - 8]);
        } else if i == 10 {
        } else if i < 13 {
            assert(s[i] == two_digits(m.hour)[i - 11]);
        } else if i < 15 {
            assert(s[i] == two_digits(m.minute)[i - 13]);
        } else {
            assert(s[i] == two_digits(m.second)[i - 15]);
        }
    }
}

/// Where each number stands in a stamp.
pub proof fn lemma_stamp_parts(m: Moment)
    ensures
        stamp_text(m).len() == 17,
        stamp_text(m).subrange(0, 2) == two_digits(m.year / 100),
        stamp_text(m).subrange(2, 4) == two_digits(m.year % 100),
        stamp_text(m)[4] == '-',
        stamp_text(m).subrange(5, 7) == two_digits(m.month),
        stamp_text(m)[7] == '-',
        stamp_text(m).subrange(8, 10) == two_digits(m.day),
        stamp_text(m)[10] == '-',
        stamp_text(m).subrange(11, 13) == two_digits(m.hour),
        stamp_text(m).subrange(13, 15) == two_digits(m.minute),
        stamp_text(m).subrange(15, 17) == two_digits(m.second),
{
    let s = stamp_text(m);
    assert(s.len() == 17);
    assert(s.subrange(0, 2) =~= two_digits(m.year / 100));
    assert(s.subrange(2, 4) =~= two_digits(m.year % 100));
    assert(s.subrange(5, 7) =~= two_digits(m.month));
    assert(s.subrange(8, 10) =~= two_digits(m.day));
    assert(s.subrange(11, 13) =~= two_digits(m.hour));
    assert(s.subrange(13, 15) =~= two_digits(m.minute));
    assert(s.subrange(15, 17) =~= two_digits(m.second));
}

/// Different moments have different stamps: a backup made at another
/// second gets another name.
pub proof fn law_stamps_differ(m1: Moment, m2: Moment)
    requires
        on_calendar(m1),
        on_calendar(m2),
        stamp_text(m1) == stamp_text(m2),
    ensures
        m1 == m2,
{
    lemma_stamp_parts(m1);
    lemma_stamp_parts(m2);
    lemma_two_digits(m1.year / 100);
    lemma_two_digits(m2.year / 100);
    lemma_two_digits(m1.year % 100);
    lemma_two_digits(m2.year % 100);
    lemma_two_digits(m1.month);
    lemma_two_digits(m2.month);
    lemma_two_digits(m1.day);
    lemma_two_digits(m2.day);
    lemma_two_digits(m1.hour);
    lemma_two_digits(m2.hour);
    lemma_two_digits(m1.minute);
    lemma_two_digits(m2.minute);
    lemma_two_digits(m1.second);
    lemma_two_digits(m2.second);
    assert(m1.year / 100 == m2.year / 100);
    assert(m1.year % 100 == m2.year % 100);
}

/// A moment that exists on the calendar.
#[derive(Debug, Clone, Copy, PartialEq, Eq)]
pub struct Timestamp {
    year: i32,
    month: u32,
    day: u32,
    hour: u32,
    minute: u32,
    second: u32,
}

impl View for Timestamp {
    type V = Moment;

    closed spec fn view(&self) -> Moment {
        Moment {
            year: self.year as int,
            month: self.month as int,
            day: self.day as int,
            hour: self.hour as int,
            minute: self.minute as int,
            second: self.second as int,
        }
    }
}

/// Has chrono make the date `year`-`month`-`day` (`NaiveDate::from_ymd_opt`)
/// and the time `hour`:`minute`:`second` on it (`NaiveDate::and_hms_opt`),
/// and write them out after `pattern` (`NaiveDateTime::format`). Claimed of
/// chrono, for the years 0 to 9999 and the pattern of a stamp: it makes the
/// date and time exactly where the day exists on the Gregorian calendar and
/// the time on a clock without leap seconds, and it writes the year in four
/// digits and every other number in two, padded with zeros, with the
/// pattern's hyphens between them.
#[verifier::external_body]
fn render(
    year: i32,
    month: u32,
    day: u32,
    hour: u32,
    minute: u32,
    second: u32,
    pattern: &str,
) -> (r: Option<String>)
    requires
        0 <= year <= 9999,
        pattern@ == STAMP_PATTERN@,
    ensures
        r is Some <==> on_calendar(
            Moment {
                year: year as int,
                month: month as int,
                day: day as int,
                hour: hour as int,
                minute: minute as int,
                second: second as int,
            },
        ),
        r matches Some(s) ==> s@ == stamp_text(
            Moment {
                year: year as int,
                month: month as int,
                day: day as int,
                hour: hour as int,
                minute: minute as int,
                second: second as int,
            },
        ),
{
    let date = chrono::NaiveDate::from_ymd_opt(year, month, day)?;
    let at = date.and_hms_opt(hour, minute, second)?;
    Some(at.format(pattern).to_string())
}

/// Whether `year` has a 29th of February.
pub fn leap_year(year: u32) -> (r: bool)
    ensures
        r == is_leap_year(year as int),
{
    year % 4 == 0 && (year % 100 != 0 || year % 400 == 0)
}

/// The number of days of `month` in `year`.
pub fn month_length(year: u32, month: u32) -> (r: u32)
    ensures
        r == days_in_month(year as int, month as int),
{
    if month == 2 {
        if leap_year(year) {
            29
        } else {
            28
        }
    } else if month == 4 || month == 6 || month == 9 || month == 11 {
        30
    } else {
        31
    }
}

impl Timestamp {
    #[verifier::type_invariant]
    spec fn inv(self) -> bool {
        on_calendar(self@)
    }

    /// The moment with these numbers, where it exists on the calendar.
    pub fn new(
        year: i32,
        month: u32,
        day: u32,
        hour: u32,
        minute: u32,
        second: u32,
    ) -> (r: Option<Timestamp>)
        ensures
            r is Some <==> on_calendar(
                Moment {
                    year: year as int,
                    month: month as int,
                    day: day as int,
                    hour: hour as int,
                    minute: minute as int,
                    second: second as int,
                },
            ),
            r matches Some(t) ==> t@ == (Moment {
                year: year as int,
                month: month as int,
                day: day as int,
                hour: hour as int,
                minute: minute as int,
                second: second as int,
            }),
    {
        if 0 <= year && year <= 9999 && 1 <= month && month <= 12 && 1 <= day && day
            <= month_length(year as u32, month) && hour < 24 && minute < 60 && second < 60 {
            Some(Timestamp { year, month, day, hour, minute, second })
        } else {
            None
        }
    }

    /// The stamp of this moment.
    pub fn stamp(&self) -> (r: String)
        ensures
            r@ == stamp_text(self@),
            on_calendar(self@),
    {
        proof {
            use_type_invariant(self);
        }
        let text = render(
            self.year,
            self.month,
            self.day,
            self.hour,
            self.minute,
            self.second,
            STAMP_PATTERN,
        );
        text.unwrap()
    }
}

} // verus!
