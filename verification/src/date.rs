use chrono::{Datelike, NaiveDate};
use vstd::prelude::*;

verus! {

/// The earliest year a calendar date of the library may have.
pub const MIN_YEAR: i32 = -262143;
/// The latest year a calendar date of the library may have.
pub const MAX_YEAR: i32 = 262142;

/// A day of the proleptic Gregorian calendar.
#[derive(Clone, Copy, Debug, PartialEq, Eq, Structural)]
pub struct Date {
    pub year: i32,
    pub month: u32,
    pub day: u32,
}

/// Whether `year` is a leap year of the Gregorian calendar.
pub open spec fn is_leap_year(year: int) -> bool {
    (year % 4 == 0 && year % 100 != 0) || year % 400 == 0
}

/// The number of days of `month` (1 to 12) in `year`.
pub open spec fn days_in_month(year: int, month: int) -> int {
    if month == 2 {
        if is_leap_year(year) { 29 } else { 28 }
    } else if month == 4 || month == 6 || month == 9 || month == 11 {
        30
    } else {
        31
    }
}

impl Date {
    /// The date names an existing day within the supported range of years.
    pub open spec fn valid(self) -> bool {
        &&& MIN_YEAR <= self.year <= MAX_YEAR
        &&& 1 <= self.month <= 12
        &&& 1 <= self.day <= days_in_month(self.year as int, self.month as int)
    }

    /// Chronological order: `self` is the same day as `other` or an earlier one.
    pub open spec fn spec_on_or_before(self, other: Date) -> bool {
        ||| self.year < other.year
        ||| (self.year == other.year && self.month < other.month)
        ||| (self.year == other.year && self.month == other.month && self.day <= other.day)
    }

    /// Builds a date from its parts if they name an existing day.
    pub fn from_ymd(year: i32, month: u32, day: u32) -> (r: Option<Date>)
        ensures
            r matches Some(d) ==> d.valid() && d == (Date { year, month, day }),
            r is None ==> !(Date { year, month, day }).valid(),
    {
        if year < MIN_YEAR || year > MAX_YEAR || month < 1 || month > 12 || day < 1 {
            return None;
        }
        let leap = (year % 4 == 0 && year % 100 != 0) || year % 400 == 0;
        assert(leap == is_leap_year(year as int)) by {
            lemma_rem_matches(year);
        }
        let max_day: u32 = if month == 2 {
            if leap { 29 } else { 28 }
        } else if month == 4 || month == 6 || month == 9 || month == 11 {
            30
        } else {
            31
        };
        if day > max_day {
            None
        } else {
            Some(Date { year, month, day })
        }
    }

    /// Whether `self` is the same day as `other` or an earlier one.
    pub fn on_or_before(&self, other: &Date) -> (r: bool)
        ensures
            r == self.spec_on_or_before(*other),
            self.year < other.year ==> r,
            self.year > other.year ==> !r,
            self.year == other.year && self.month < other.month ==> r,
            self.year == other.year && self.month > other.month ==> !r,
            self.year == other.year && self.month == other.month ==> (r <==> self.day <= other.day),
    {
        self.year < other.year || (self.year == other.year && self.month < other.month) || (
        self.year == other.year && self.month == other.month && self.day <= other.day)
    }
}

/// Rust's `%` on `i32` agrees with Euclidean remainder on whether a year is a
/// multiple of 4, 100 or 400.
proof fn lemma_rem_matches(year: i32)
    ensures
        (year % 4 == 0) == ((year as int) % 4 == 0),
        (year % 100 == 0) == ((year as int) % 100 == 0),
        (year % 400 == 0) == ((year as int) % 400 == 0),
{
}


/// The character of the decimal digit `d` (0 to 9).
pub open spec fn digit_char(d: int) -> char {
    (d + 48) as char
}

/// The decimal digits of `n`, without leading zeros.
pub open spec fn decimal(n: nat) -> Seq<char>
    decreases n,
{
    if n < 10 {
        seq![digit_char(n as int)]
    } else {
        decimal(n / 10).push(digit_char((n % 10) as int))
    }
}

/// The decimal digits of `n`, with zeros in front up to `width` digits.
pub open spec fn zero_padded(n: nat, width: nat) -> Seq<char> {
    let d = decimal(n);
    if d.len() < width {
        Seq::new((width - d.len()) as nat, |i: int| '0') + d
    } else {
        d
    }
}

/// A year as `%Y` writes it: four digits from year 0 to 9999, else a sign
/// and at least four digits.
pub open spec fn year_text(y: int) -> Seq<char> {
    if 0 <= y <= 9999 {
        zero_padded(y as nat, 4)
    } else if y < 0 {
        seq!['-'] + zero_padded((-y) as nat, 4)
    } else {
        seq!['+'] + zero_padded(y as nat, 4)
    }
}

/// A date as the format `%Y-%m-%d` writes it.
pub open spec fn ymd_text(d: Date) -> Seq<char> {
    year_text(d.year as int) + seq!['-'] + zero_padded(d.month as nat, 2) + seq!['-']
        + zero_padded(d.day as nat, 2)
}

/// A character that the text of a date is made of: a digit or a sign.
pub open spec fn is_date_char(c: char) -> bool {
    ('0' <= c && c <= '9') || c == '-' || c == '+'
}

/// The decimal digits of a number are digits, at least one.
pub proof fn lemma_decimal_digits(n: nat)
    ensures
        decimal(n).len() >= 1,
        forall|i: int| 0 <= i < decimal(n).len() ==> '0' <= #[trigger] decimal(n)[i] <= '9',
    decreases n,
{
    if n >= 10 {
        lemma_decimal_digits(n / 10);
        let d = decimal(n / 10);
        let c = digit_char((n % 10) as int);
        assert forall|i: int| 0 <= i < decimal(n).len() implies '0' <= #[trigger] decimal(n)[i] <= '9' by {
            if i < d.len() {
                assert(decimal(n)[i] == d[i]);
            } else {
                assert(decimal(n)[i] == c);
            }
        }
    }
}

/// A padded number is made of digits, at least `width` of them and at least
/// one.
pub proof fn lemma_zero_padded_digits(n: nat, width: nat)
    ensures
        zero_padded(n, width).len() >= width,
        zero_padded(n, width).len() >= 1,
        forall|i: int| 0 <= i < zero_padded(n, width).len() ==> '0' <= #[trigger] zero_padded(n, width)[i] <= '9',
{
    lemma_decimal_digits(n);
    let d = decimal(n);
    if d.len() < width {
        let z = Seq::new((width - d.len()) as nat, |i: int| '0');
        assert forall|i: int| 0 <= i < zero_padded(n, width).len() implies '0' <= #[trigger] zero_padded(n, width)[i] <= '9' by {
            if i < z.len() {
                assert(zero_padded(n, width)[i] == z[i]);
            } else {
                assert(zero_padded(n, width)[i] == d[i - z.len()]);
            }
        }
    }
}

/// The text of a date is made of digits and signs, and ends with a digit.
pub proof fn lemma_ymd_text_chars(d: Date)
    ensures
        ymd_text(d).len() >= 1,
        forall|i: int| 0 <= i < ymd_text(d).len() ==> is_date_char(#[trigger] ymd_text(d)[i]),
        '0' <= ymd_text(d).last() <= '9',
{
    let y = year_text(d.year as int);
    let m = zero_padded(d.month as nat, 2);
    let dd = zero_padded(d.day as nat, 2);
    lemma_zero_padded_digits(d.month as nat, 2);
    lemma_zero_padded_digits(d.day as nat, 2);
    let yz = if 0 <= d.year <= 9999 {
        zero_padded(d.year as nat, 4)
    } else if d.year < 0 {
        zero_padded((-d.year) as nat, 4)
    } else {
        zero_padded(d.year as nat, 4)
    };
    if 0 <= d.year <= 9999 {
        lemma_zero_padded_digits(d.year as nat, 4);
    } else if d.year < 0 {
        lemma_zero_padded_digits((-d.year) as nat, 4);
    } else {
        lemma_zero_padded_digits(d.year as nat, 4);
    }
    assert forall|i: int| 0 <= i < y.len() implies is_date_char(#[trigger] y[i]) by {
        if 0 <= d.year <= 9999 {
        } else {
            if i > 0 {
                assert(y[i] == yz[i - 1]);
            }
        }
    }
    let t = ymd_text(d);
    assert(t == y + seq!['-'] + m + seq!['-'] + dd);
    assert forall|i: int| 0 <= i < t.len() implies is_date_char(#[trigger] t[i]) by {
        if i < y.len() {
            assert(t[i] == y[i]);
        } else if i == y.len() {
        } else if i < y.len() + 1 + m.len() {
            assert(t[i] == m[i - y.len() - 1]);
        } else if i == y.len() + 1 + m.len() {
        } else {
            assert(t[i] == dd[i - y.len() - 2 - m.len()]);
        }
    }
    assert(t.last() == dd.last());
}

/// What `NaiveDate::parse_from_str` with the format `%Y-%m-%d` reads from
/// `s`: the year, month and day of the date, or nothing.
pub uninterp spec fn ymd_parsed(s: Seq<char>) -> Option<(i32, u32, u32)>;

/// `NaiveDate::format` with the format `%Y-%m-%d`, on the `NaiveDate` of `d`.
/// The contract states the text that chrono's formatting code writes for the
/// year, month and day, and that for a year of four digits `parse_from_str`
/// with the same format reads that text back as the date.
#[verifier::external_body]
pub(crate) fn format_ymd(d: Date) -> (r: String)
    requires
        d.valid(),
    ensures
        r@ == ymd_text(d),
        0 <= d.year <= 9999 ==> ymd_parsed(r@) == Some((d.year, d.month, d.day)),
{
    match NaiveDate::from_ymd_opt(d.year, d.month, d.day) {
        Some(n) => n.format("%Y-%m-%d").to_string(),
        None => String::new(),
    }
}

/// `NaiveDate::parse_from_str` with the format `%Y-%m-%d`. The contract names
/// what it reads, says that what it reads is a date of chrono's range, and
/// that the text `%Y-%m-%d` writes for a date is read back as that date.
#[verifier::external_body]
pub(crate) fn parse_ymd(s: &str) -> (r: Option<Date>)
    ensures
        r is None <==> ymd_parsed(s@) is None,
        r matches Some(d) ==> ymd_parsed(s@) == Some((d.year, d.month, d.day)),
        r matches Some(d) ==> d.valid(),
        forall|d: Date| d.valid() && s@ == ymd_text(d) ==> r == Some(d),
{
    match NaiveDate::parse_from_str(s, "%Y-%m-%d") {
        Ok(n) => Some(Date { year: n.year(), month: n.month(), day: n.day() }),
        Err(_) => None,
    }
}


/// Being on or before is the order of calendar days: a day of an earlier
/// year comes first, then within a year one of an earlier month, then within
/// a month one of an earlier day; a later year never comes first.
pub proof fn law_on_or_before_is_calendar_order(a: Date, b: Date)
    ensures
        a.year < b.year ==> a.spec_on_or_before(b),
        a.year > b.year ==> !a.spec_on_or_before(b),
        a.year == b.year && a.month < b.month ==> a.spec_on_or_before(b),
        a.year == b.year && a.month > b.month ==> !a.spec_on_or_before(b),
        a.year == b.year && a.month == b.month ==> (a.spec_on_or_before(b) <==> a.day <= b.day),
{
}

/// Being on or before is a total order on days: every day is on or before
/// itself, of two days one is on or before the other, two days each on or
/// before the other are the same day, and the order is transitive.
pub proof fn law_on_or_before_total_order(a: Date, b: Date, c: Date)
    ensures
        a.spec_on_or_before(a),
        a.spec_on_or_before(b) || b.spec_on_or_before(a),
        a.spec_on_or_before(b) && b.spec_on_or_before(a) ==> a.year == b.year && a.month == b.month && a.day
            == b.day,
        a.spec_on_or_before(b) && b.spec_on_or_before(c) ==> a.spec_on_or_before(c),
{
}

} // verus!
