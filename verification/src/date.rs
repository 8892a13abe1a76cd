//! Calendar dates as plain year, month and day numbers.
//!
//! A date is the key of every series row and the form every checkpoint takes,
//! so it is held as three small integers with an explicit well-formedness
//! predicate and a lexicographic order, rather than as an opaque value of a
//! date-time library.

use vstd::prelude::*;

verus! {

/// A calendar date. `wf` says when the three numbers denote a real day.
#[derive(Clone, Copy, PartialEq, Eq, Structural, Debug)]
pub struct Date {
    pub year: u16,
    pub month: u8,
    pub day: u8,
}

pub open spec fn is_leap_year(y: int) -> bool {
    (y % 4 == 0 && y % 100 != 0) || y % 400 == 0
}

pub open spec fn days_in_month(y: int, m: int) -> int {
    if m == 2 {
        if is_leap_year(y) {
            29
        } else {
            28
        }
    } else if m == 4 || m == 6 || m == 9 || m == 11 {
        30
    } else {
        31
    }
}

impl Date {
    /// The month and the day lie in range for the (proleptic Gregorian) calendar.
    pub open spec fn wf(self) -> bool {
        &&& 1 <= self.month <= 12
        &&& 1 <= self.day <= days_in_month(self.year as int, self.month as int)
    }

    /// Strict lexicographic order: year, then month, then day.
    pub open spec fn before(self, other: Date) -> bool {
        ||| self.year < other.year
        ||| (self.year == other.year && self.month < other.month)
        ||| (self.year == other.year && self.month == other.month && self.day < other.day)
    }

    pub open spec fn on_or_before(self, other: Date) -> bool {
        self.before(other) || self == other
    }

    /// Builds a date, refusing the triples that name no real day.
    pub fn new(year: u16, month: u8, day: u8) -> (r: Option<Date>)
        ensures
            r == if (Date { year, month, day }).wf() {
                Some(Date { year, month, day })
            } else {
                None::<Date>
            },
    {
        let leap: bool = (year % 4 == 0 && year % 100 != 0) || year % 400 == 0;
        let dim: u8 = if month == 2 {
            if leap {
                29
            } else {
                28
            }
        } else if month == 4 || month == 6 || month == 9 || month == 11 {
            30
        } else {
            31
        };
        if 1 <= month && month <= 12 && 1 <= day && day <= dim {
            Some(Date { year, month, day })
        } else {
            None
        }
    }

    /// Runtime check of `wf`, for data that arrives unvalidated.
    pub fn check(&self) -> (r: bool)
        ensures
            r == self.wf(),
    {
        match Date::new(self.year, self.month, self.day) {
            Some(_) => true,
            None => false,
        }
    }

    /// Strictly earlier than `other`.
    pub fn lt(&self, other: &Date) -> (r: bool)
        ensures
            r == self.before(*other),
    {
        if self.year != other.year {
            self.year < other.year
        } else if self.month != other.month {
            self.month < other.month
        } else {
            self.day < other.day
        }
    }
}

/// `before` is a strict total order on dates.
pub proof fn lemma_date_order(a: Date, b: Date)
    ensures
        a.before(b) ==> !b.before(a),
        a.before(b) ==> a != b,
        !a.before(b) && !b.before(a) ==> a == b,
{
}

pub proof fn lemma_before_trans(a: Date, b: Date, c: Date)
    requires
        a.on_or_before(b),
        b.before(c),
    ensures
        a.before(c),
{
}

pub open spec fn is_digit(c: char) -> bool {
    48 <= c as int <= 57
}

pub open spec fn digit_val(c: char) -> int {
    c as int - 48
}

/// The shape `YYYY-MM-DD`: ten characters, digits in the date positions,
/// dashes between the groups.
pub open spec fn is_date_text(s: Seq<char>) -> bool {
    &&& s.len() == 10
    &&& is_digit(s[0]) && is_digit(s[1]) && is_digit(s[2]) && is_digit(s[3])
    &&& s[4] == '-'
    &&& is_digit(s[5]) && is_digit(s[6])
    &&& s[7] == '-'
    &&& is_digit(s[8]) && is_digit(s[9])
}

/// The date the text denotes, assuming `is_date_text`.
pub open spec fn text_date(s: Seq<char>) -> Date {
    Date {
        year: (1000 * digit_val(s[0]) + 100 * digit_val(s[1]) + 10 * digit_val(s[2]) + digit_val(
            s[3],
        )) as u16,
        month: (10 * digit_val(s[5]) + digit_val(s[6])) as u8,
        day: (10 * digit_val(s[8]) + digit_val(s[9])) as u8,
    }
}

impl Date {
    /// Parses `YYYY-MM-DD`, returning a date exactly when the text has that
    /// shape and names a real day.
    pub fn parse(s: &str) -> (r: Option<Date>)
        ensures
            r == if is_date_text(s@) && text_date(s@).wf() {
                Some(text_date(s@))
            } else {
                None::<Date>
            },
    {
        if s.unicode_len() != 10 {
            return None;
        }
        let c0 = s.get_char(0);
        let c1 = s.get_char(1);
        let c2 = s.get_char(2);
        let c3 = s.get_char(3);
        let c4 = s.get_char(4);
        let c5 = s.get_char(5);
        let c6 = s.get_char(6);
        let c7 = s.get_char(7);
        let c8 = s.get_char(8);
        let c9 = s.get_char(9);
        if !(digit(c0) && digit(c1) && digit(c2) && digit(c3) && c4 == '-' && digit(c5) && digit(c6)
            && c7 == '-' && digit(c8) && digit(c9)) {
            return None;
        }
        let year: u16 = 1000 * val(c0) as u16 + 100 * val(c1) as u16 + 10 * val(c2) as u16 + val(
            c3,
        ) as u16;
        let month: u8 = 10 * val(c5) + val(c6);
        let day: u8 = 10 * val(c8) + val(c9);
        Date::new(year, month, day)
    }
}

fn digit(c: char) -> (r: bool)
    ensures
        r == is_digit(c),
{
    let v = c as u32;
    48 <= v && v <= 57
}

fn val(c: char) -> (r: u8)
    requires
        is_digit(c),
    ensures
        r as int == digit_val(c),
{
    (c as u32 - 48) as u8
}

} // verus!
