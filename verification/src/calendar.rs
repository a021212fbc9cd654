//! Calendar dates, local date-times and fixed-point amounts.
use vstd::prelude::*;

verus! {

/// A day of the Gregorian calendar.
#[derive(Debug, Clone, Copy, PartialEq, Eq, Structural)]
pub struct Date {
    pub year: i32,
    pub month: u32,
    pub day: u32,
}

/// A day and a time of that day, without a time zone.
#[derive(Debug, Clone, Copy, PartialEq, Eq, Structural)]
pub struct DateTime {
    pub date: Date,
    pub second_of_day: u32,
    pub nanos: u32,
}

/// A fixed-point amount: `mantissa` divided by ten to the power of `scale`.
#[derive(Debug, Clone, Copy, PartialEq, Eq, Structural)]
pub struct Decimal {
    pub mantissa: i128,
    pub scale: u32,
}

/// The first and the last year that dates are kept for.
pub const FIRST_YEAR: i32 = -262_143;

pub const LAST_YEAR: i32 = 262_142;

pub open spec fn is_leap(year: int) -> bool {
    year % 4 == 0 && (year % 100 != 0 || year % 400 == 0)
}

pub open spec fn days_in_month(year: int, month: int) -> int {
    if month == 2 {
        if is_leap(year) {
            29
        } else {
            28
        }
    } else if month == 4 || month == 6 || month == 9 || month == 11 {
        30
    } else {
        31
    }
}

/// The days of a year before the first of a month.
pub open spec fn days_before_month(year: int, month: int) -> int
    decreases month,
{
    if month <= 1 {
        0
    } else {
        days_before_month(year, month - 1) + days_in_month(year, month - 1)
    }
}

/// The days from the first of January of the year one to the first of January of
/// a year.
pub open spec fn days_before_year(year: int) -> int {
    let y = year - 1;
    365 * y + y / 4 - y / 100 + y / 400
}

impl Date {
    /// A day that exists.
    pub open spec fn wf(&self) -> bool {
        &&& FIRST_YEAR <= self.year <= LAST_YEAR
        &&& 1 <= self.month <= 12
        &&& 1 <= self.day <= days_in_month(self.year as int, self.month as int)
    }

    /// The number of the day, counted from the first of January of the year one.
    pub open spec fn number(&self) -> int {
        days_before_year(self.year as int) + days_before_month(self.year as int, self.month as int)
            + self.day
    }

    /// This day is after that one.
    pub open spec fn is_after(&self, other: Date) -> bool {
        ||| self.year > other.year
        ||| self.year == other.year && self.month > other.month
        ||| self.year == other.year && self.month == other.month && self.day > other.day
    }

    /// The next day.
    pub open spec fn next(&self) -> Date {
        if self.day < days_in_month(self.year as int, self.month as int) {
            Date { day: (self.day + 1) as u32, ..*self }
        } else if self.month < 12 {
            Date { year: self.year, month: (self.month + 1) as u32, day: 1 }
        } else {
            Date { year: (self.year + 1) as i32, month: 1, day: 1 }
        }
    }

    /// A day, where it exists.
    pub fn new(year: i32, month: u32, day: u32) -> (r: Option<Date>)
        ensures
            match r {
                Some(d) => d == (Date { year, month, day }) && d.wf(),
                None => !(Date { year, month, day }).wf(),
            },
    {
        if year < FIRST_YEAR || year > LAST_YEAR || month < 1 || month > 12 || day < 1 {
            return None;
        }
        if day > month_length(year, month) {
            return None;
        }
        Some(Date { year, month, day })
    }

    /// Whether this day is after that one.
    pub fn after(&self, other: &Date) -> (r: bool)
        ensures
            r == self.is_after(*other),
    {
        self.year > other.year || (self.year == other.year && (self.month > other.month || (
        self.month == other.month && self.day > other.day)))
    }

    /// The next day. The last day there is has none.
    pub fn succ(&self) -> (r: Date)
        requires
            self.wf(),
            *self != (Date { year: LAST_YEAR, month: 12, day: 31 }),
        ensures
            r == self.next(),
            r.wf(),
            r.number() == self.number() + 1,
    {
        proof {
            lemma_next(*self);
        }
        if self.day < month_length(self.year, self.month) {
            Date { year: self.year, month: self.month, day: self.day + 1 }
        } else if self.month < 12 {
            Date { year: self.year, month: self.month + 1, day: 1 }
        } else {
            Date { year: self.year + 1, month: 1, day: 1 }
        }
    }

    /// The day as text, year first.
    pub fn text(&self) -> (r: String)
        requires
            self.wf(),
        ensures
            r@ == date_text(*self),
    {
        iso_date(self.year, self.month, self.day)
    }
}

/// A number below a hundred in two digits.
pub open spec fn two_digits(n: int) -> Seq<char> {
    seq![crate::text::digit_char(n / 10), crate::text::digit_char(n % 10)]
}

/// A natural number in at least four digits.
pub open spec fn four_digits(n: nat) -> Seq<char> {
    if n < 10_000 {
        two_digits(n as int / 100) + two_digits(n as int % 100)
    } else {
        crate::text::digits(n)
    }
}

/// The year of a date as text: four digits, and a sign where they do not do.
pub open spec fn year_text(year: int) -> Seq<char> {
    if year < 0 {
        seq!['-'] + four_digits((-year) as nat)
    } else if year <= 9999 {
        four_digits(year as nat)
    } else {
        seq!['+'] + four_digits(year as nat)
    }
}

/// The text of a date: year, month and day, separated by hyphens.
pub open spec fn date_text(d: Date) -> Seq<char> {
    year_text(d.year as int) + seq!['-'] + two_digits(d.month as int) + seq!['-'] + two_digits(
        d.day as int,
    )
}

/// Calls chrono's `NaiveDate::from_ymd_opt`, which gives a value for every day
/// that exists, and formats it with its `Display` impl: ISO 8601, with a sign on
/// years outside 0 to 9999.
#[verifier::external_body]
fn iso_date(year: i32, month: u32, day: u32) -> (r: String)
    requires
        (Date { year, month, day }).wf(),
    ensures
        r@ == date_text(Date { year, month, day }),
{
    chrono::NaiveDate::from_ymd_opt(year, month, day).unwrap().to_string()
}

fn month_length(year: i32, month: u32) -> (r: u32)
    requires
        1 <= month <= 12,
        FIRST_YEAR <= year <= LAST_YEAR,
    ensures
        r == days_in_month(year as int, month as int),
{
    if month == 2 {
        // Counted from a year that starts a cycle of four hundred, to stay
        // positive.
        let y: i32 = year + 262_400;
        assert(y % 4 == year % 4 && y % 100 == year % 100 && y % 400 == year % 400);
        if y % 4 == 0 && (y % 100 != 0 || y % 400 == 0) {
            29
        } else {
            28
        }
    } else if month == 4 || month == 6 || month == 9 || month == 11 {
        30
    } else {
        31
    }
}

proof fn lemma_year_length(year: int)
    ensures
        days_before_year(year + 1) == days_before_year(year) + if is_leap(year) {
            366int
        } else {
            365int
        },
{
    let y = year - 1;
    assert(year / 4 == y / 4 + if year % 4 == 0 {
        1int
    } else {
        0int
    });
    assert(year / 100 == y / 100 + if year % 100 == 0 {
        1int
    } else {
        0int
    });
    assert(year / 400 == y / 400 + if year % 400 == 0 {
        1int
    } else {
        0int
    });
    assert(year % 400 == 0 ==> year % 100 == 0);
    assert(year % 100 == 0 ==> year % 4 == 0);
}

/// The day after one that exists exists, and has the next number.
pub proof fn lemma_next(d: Date)
    requires
        d.wf(),
        d != (Date { year: LAST_YEAR, month: 12, day: 31 }),
    ensures
        d.next().wf(),
        d.next().number() == d.number() + 1,
{
    let y = d.year as int;
    if d.day == days_in_month(y, d.month as int) && d.month == 12 {
        lemma_year_length(y);
        reveal_with_fuel(days_before_month, 13);
    }
}

/// The days of a year before a month, by month.
proof fn lemma_months_in_order(year: int, m: int, n: int)
    requires
        1 <= m < n <= 13,
    ensures
        days_before_month(year, m) + days_in_month(year, m) <= days_before_month(year, n),
    decreases n - m,
{
    if m + 1 < n {
        lemma_months_in_order(year, m, n - 1);
        assert(days_in_month(year, n - 1) > 0);
    }
}

proof fn lemma_years_in_order(a: int, b: int)
    requires
        a < b,
    ensures
        days_before_year(a + 1) <= days_before_year(b),
    decreases b - a,
{
    if a + 1 < b {
        lemma_years_in_order(a, b - 1);
        lemma_year_length(b - 1);
    }
}

/// Days are in the order of their numbers, and no two days share a number.
pub proof fn days_are_in_the_order_of_their_numbers(a: Date, b: Date)
    requires
        a.wf(),
        b.wf(),
    ensures
        a.is_after(b) <==> a.number() > b.number(),
        a == b <==> a.number() == b.number(),
{
    lemma_strictly_after(a, b);
    lemma_strictly_after(b, a);
}

proof fn lemma_strictly_after(a: Date, b: Date)
    requires
        a.wf(),
        b.wf(),
    ensures
        a.is_after(b) ==> a.number() > b.number(),
{
    if a.year > b.year {
        lemma_years_in_order(b.year as int, a.year as int);
        lemma_year_length(b.year as int);
        lemma_whole_year(b);
        assert(days_before_month(a.year as int, a.month as int) >= 0) by {
            if a.month > 1 {
                lemma_months_in_order(a.year as int, 1, a.month as int);
            }
        }
    } else if a.year == b.year && a.month > b.month {
        lemma_months_in_order(a.year as int, b.month as int, a.month as int);
    }
}

/// A day lies within its year.
proof fn lemma_whole_year(d: Date)
    requires
        d.wf(),
    ensures
        d.number() <= days_before_year(d.year + 1),
{
    lemma_year_length(d.year as int);
    lemma_months_in_order(d.year as int, d.month as int, 13);
    reveal_with_fuel(days_before_month, 13);
}

} // verus!
