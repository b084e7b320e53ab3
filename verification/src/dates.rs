//! Calendar dates, held as plain year, month and day, with the text forms
//! that `chrono` gives them.

use chrono::Datelike;
use chrono::NaiveDate;
use chrono::ParseError;
use vstd::prelude::*;

verus! {

/// The error `chrono` reports for text that is no date.
#[verifier::external_type_specification]
#[verifier::external_body]
pub struct ExParseError(ParseError);

/// The first year that a date can have.
pub open spec fn min_year() -> int {
    -262143
}

/// The last year that a date can have.
pub open spec fn max_year() -> int {
    262142
}

/// Leap years of the proleptic Gregorian calendar.
pub open spec fn is_leap_year(y: int) -> bool {
    y % 4 == 0 && (y % 100 != 0 || y % 400 == 0)
}

/// The number of days of month `m` of year `y`.
pub open spec fn days_in_month(y: int, m: int) -> int {
    if m == 2 {
        if is_leap_year(y) {
            29
        } else {
            28
        }
    } else if m == 4 || m == 6 || m == 9 || m == 11 {
        30
    } else {
        31
    }
}

/// Whether year `y`, month `m` and day `d` name a day of the calendar.
pub open spec fn valid_ymd(y: int, m: int, d: int) -> bool {
    &&& min_year() <= y <= max_year()
    &&& 1 <= m <= 12
    &&& 1 <= d <= days_in_month(y, m)
}

/// The lengths of the months: January, March, May, July, August, October
/// and December have 31 days; April, June, September and November 30;
/// February 29 in leap years and 28 otherwise.
pub proof fn lemma_month_lengths(y: int, m: int)
    requires
        min_year() <= y <= max_year(),
        1 <= m <= 12,
    ensures
        valid_ymd(y, m, 31) <==> (m == 1 || m == 3 || m == 5 || m == 7 || m == 8 || m == 10 || m
            == 12),
        valid_ymd(y, m, 30) <==> m != 2,
        valid_ymd(y, m, 29) <==> (m != 2 || is_leap_year(y)),
        valid_ymd(y, m, 28),
        !valid_ymd(y, m, 32),
{
}

/// A leap year has 366 days, any other year 365.
pub proof fn lemma_year_length(y: int)
    ensures
        days_in_month(y, 1) + days_in_month(y, 2) + days_in_month(y, 3) + days_in_month(y, 4)
            + days_in_month(y, 5) + days_in_month(y, 6) + days_in_month(y, 7) + days_in_month(
            y,
            8,
        ) + days_in_month(y, 9) + days_in_month(y, 10) + days_in_month(y, 11) + days_in_month(
            y,
            12,
        ) == if is_leap_year(y) {
            366int
        } else {
            365int
        },
{
}

/// Leap years: every fourth year, except every hundredth, except every
/// four hundredth.
pub proof fn lemma_leap_years(y: int)
    ensures
        y % 400 == 0 ==> is_leap_year(y),
        y % 100 == 0 && y % 400 != 0 ==> !is_leap_year(y),
        y % 4 == 0 && y % 100 != 0 ==> is_leap_year(y),
        y % 4 != 0 ==> !is_leap_year(y),
{
}

/// A date in mathematical form.
pub struct CalendarDate {
    pub year: int,
    pub month: int,
    pub day: int,
}

/// The date that a year, month and day triple names.
pub open spec fn ymd_date(v: (i32, u32, u32)) -> CalendarDate {
    CalendarDate { year: v.0 as int, month: v.1 as int, day: v.2 as int }
}

/// The decimal digit character for `d` in `0..10`.
pub open spec fn digit_char(d: int) -> char {
    (d + 48) as char
}

/// The decimal digits of `n`, without leading zeros.
pub open spec fn decimal(n: nat) -> Seq<char>
    decreases n,
{
    if n < 10 {
        seq![digit_char(n as int)]
    } else {
        decimal(n / 10).push(digit_char((n % 10) as int))
    }
}

/// `s` with zeros in front until it is at least `width` characters long.
pub open spec fn zero_padded(s: Seq<char>, width: nat) -> Seq<char> {
    if s.len() < width {
        Seq::new((width - s.len()) as nat, |i: int| '0') + s
    } else {
        s
    }
}

/// A year as text: four digits with leading zeros for years `0..=9999`,
/// otherwise a sign followed by at least four digits.
pub open spec fn year_text(y: int) -> Seq<char> {
    if 0 <= y <= 9999 {
        zero_padded(decimal(y as nat), 4)
    } else if y < 0 {
        seq!['-'] + zero_padded(decimal((-y) as nat), 4)
    } else {
        seq!['+'] + zero_padded(decimal(y as nat), 4)
    }
}

/// A month or a day as two digits with a leading zero.
pub open spec fn two_digit_text(n: int) -> Seq<char> {
    zero_padded(decimal(n as nat), 2)
}

/// The text `YYYY-MM` of the month of `d`.
pub open spec fn year_month_text(d: CalendarDate) -> Seq<char> {
    year_text(d.year) + seq!['-'] + two_digit_text(d.month)
}

/// The text `YYYY-MM-DD` of `d`.
pub open spec fn date_text(d: CalendarDate) -> Seq<char> {
    year_month_text(d) + seq!['-'] + two_digit_text(d.day)
}


/// The number that a sequence of decimal digit characters denotes.
pub open spec fn digits_value(s: Seq<char>) -> int
    decreases s.len(),
{
    if s.len() == 0 {
        0
    } else {
        digits_value(s.drop_last()) * 10 + (s.last() as int - 48)
    }
}

proof fn lemma_decimal(n: nat)
    ensures
        digits_value(decimal(n)) == n,
        decimal(n).len() >= 1,
        forall|i: int| 0 <= i < decimal(n).len() ==> 48 <= #[trigger] decimal(n)[i] as int <= 57,
        n < 10 ==> decimal(n).len() == 1,
        10 <= n < 100 ==> decimal(n).len() == 2,
        n < 100 ==> decimal(n).len() <= 2,
        n < 1000 ==> decimal(n).len() <= 3,
        n < 10000 ==> decimal(n).len() <= 4,
    decreases n,
{
    if n >= 10 {
        lemma_decimal(n / 10);
        assert(decimal(n).drop_last() =~= decimal(n / 10));
        vstd::arithmetic::div_mod::lemma_fundamental_div_mod(n as int, 10);
        assert(decimal(n).last() as int == n % 10 + 48);
        assert(digits_value(decimal(n)) == digits_value(decimal(n / 10)) * 10 + n % 10);
    } else {
        assert(decimal(n).drop_last() =~= Seq::<char>::empty());
        assert(decimal(n).last() as int == n + 48);
        assert(digits_value(Seq::<char>::empty()) == 0);
    }
}

proof fn lemma_leading_zeros(k: nat, s: Seq<char>)
    ensures
        digits_value(Seq::new(k, |i: int| '0') + s) == digits_value(s),
    decreases s.len(), k,
{
    let z = Seq::new(k, |i: int| '0');
    if s.len() == 0 {
        assert(z + s =~= z);
        if k > 0 {
            let z1 = Seq::new((k - 1) as nat, |i: int| '0');
            assert(z.drop_last() =~= z1 + s);
            lemma_leading_zeros((k - 1) as nat, s);
        }
    } else {
        assert((z + s).drop_last() =~= z + s.drop_last());
        lemma_leading_zeros(k, s.drop_last());
    }
}

proof fn lemma_padded(n: nat, w: nat)
    ensures
        digits_value(zero_padded(decimal(n), w)) == n,
        zero_padded(decimal(n), w).len() >= 1,
        48 <= zero_padded(decimal(n), w)[0] as int <= 57,
        zero_padded(decimal(n), w).len() == if decimal(n).len() < w {
            w as int
        } else {
            decimal(n).len() as int
        },
{
    lemma_decimal(n);
    if decimal(n).len() < w {
        lemma_leading_zeros((w - decimal(n).len()) as nat, decimal(n));
    }
}

proof fn lemma_year_text_shape(y: int)
    ensures
        year_text(y).len() >= 1,
        0 <= y <= 9999 ==> 48 <= year_text(y)[0] as int <= 57 && digits_value(year_text(y)) == y,
        y < 0 ==> year_text(y)[0] == '-' && digits_value(year_text(y).drop_first()) == -y,
        y > 9999 ==> year_text(y)[0] == '+' && digits_value(year_text(y).drop_first()) == y,
{
    if 0 <= y <= 9999 {
        lemma_padded(y as nat, 4);
    } else if y < 0 {
        lemma_padded((-y) as nat, 4);
        assert(year_text(y).drop_first() =~= zero_padded(decimal((-y) as nat), 4));
    } else {
        lemma_padded(y as nat, 4);
        assert(year_text(y).drop_first() =~= zero_padded(decimal(y as nat), 4));
    }
}

proof fn lemma_year_text_injective(a: int, b: int)
    requires
        year_text(a) == year_text(b),
    ensures
        a == b,
{
    lemma_year_text_shape(a);
    lemma_year_text_shape(b);
}

/// Two months that are written alike are the same month: the `YYYY-MM`
/// text of a date determines its year and its month.
pub proof fn lemma_year_month_text_injective(a: CalendarDate, b: CalendarDate)
    requires
        1 <= a.month <= 12,
        1 <= b.month <= 12,
        year_month_text(a) == year_month_text(b),
    ensures
        a.year == b.year,
        a.month == b.month,
{
    let ya = year_text(a.year);
    let yb = year_text(b.year);
    let ma = two_digit_text(a.month);
    let mb = two_digit_text(b.month);
    lemma_padded(a.month as nat, 2);
    lemma_padded(b.month as nat, 2);
    lemma_decimal(a.month as nat);
    lemma_decimal(b.month as nat);
    let t = year_month_text(a);
    assert(ma.len() == 2 && mb.len() == 2);
    assert(t == ya + seq!['-'] + ma);
    assert(year_month_text(b) == yb + seq!['-'] + mb);
    assert(t.len() == ya.len() + 3);
    assert(year_month_text(b).len() == yb.len() + 3);
    assert(ya.len() == yb.len());
    assert(t.subrange(0, ya.len() as int) =~= ya);
    assert(year_month_text(b).subrange(0, yb.len() as int) =~= yb);
    lemma_year_text_injective(a.year, b.year);
    assert(t.subrange(ya.len() as int + 1, t.len() as int) =~= ma);
    assert(year_month_text(b).subrange(yb.len() as int + 1, t.len() as int) =~= mb);
}

/// Whether `t` is the `YYYY-MM-DD` text of some date.
pub open spec fn is_date_text(t: Seq<char>) -> bool {
    exists|v: (i32, u32, u32)|
        valid_ymd(v.0 as int, v.1 as int, v.2 as int) && t == #[trigger] date_text(ymd_date(v))
}

/// Two days that are written alike are the same day.
pub proof fn lemma_date_text_injective(a: CalendarDate, b: CalendarDate)
    requires
        1 <= a.month <= 12,
        1 <= b.month <= 12,
        1 <= a.day <= 31,
        1 <= b.day <= 31,
        date_text(a) == date_text(b),
    ensures
        a == b,
{
    let ya = year_month_text(a);
    let yb = year_month_text(b);
    let da = two_digit_text(a.day);
    let db = two_digit_text(b.day);
    lemma_padded(a.day as nat, 2);
    lemma_padded(b.day as nat, 2);
    lemma_decimal(a.day as nat);
    lemma_decimal(b.day as nat);
    let t = date_text(a);
    assert(da.len() == 2 && db.len() == 2);
    assert(t == ya + seq!['-'] + da);
    assert(date_text(b) == yb + seq!['-'] + db);
    assert(ya.len() == yb.len());
    assert(t.subrange(0, ya.len() as int) =~= ya);
    assert(date_text(b).subrange(0, yb.len() as int) =~= yb);
    lemma_year_month_text_injective(a, b);
    assert(t.subrange(ya.len() as int + 1, t.len() as int) =~= da);
    assert(date_text(b).subrange(yb.len() as int + 1, t.len() as int) =~= db);
}

/// What `chrono` reads from `text` in the format `%Y-%m-%d`, as year, month
/// and day, or `None` where it reports an error.
pub uninterp spec fn parsed_ymd(text: Seq<char>) -> Option<(i32, u32, u32)>;

/// Formats a valid date with `chrono`'s `NaiveDate::format("%Y-%m")`.
/// Claimed: the text is the year as `chrono` writes `%Y` (four digits with
/// leading zeros for years 0 to 9999, else a sign and at least four digits),
/// a hyphen and the month as two digits.
#[verifier::external_body]
fn chrono_year_month(year: i32, month: u32, day: u32) -> (text: String)
    requires
        valid_ymd(year as int, month as int, day as int),
    ensures
        text@ == year_month_text(CalendarDate { year: year as int, month: month as int, day: day as int }),
{
    NaiveDate::from_ymd_opt(year, month, day).unwrap().format("%Y-%m").to_string()
}

/// Formats a valid date with `chrono`'s `Display` for `NaiveDate`.
/// Claimed: the text is the year as above, a hyphen, the month as two
/// digits, a hyphen and the day as two digits.
#[verifier::external_body]
fn chrono_date_text(year: i32, month: u32, day: u32) -> (text: String)
    requires
        valid_ymd(year as int, month as int, day as int),
    ensures
        text@ == date_text(CalendarDate { year: year as int, month: month as int, day: day as int }),
{
    NaiveDate::from_ymd_opt(year, month, day).unwrap().to_string()
}

/// Reads a date with `chrono`'s `NaiveDate::parse_from_str(text, "%Y-%m-%d")`.
/// Claimed: the outcome depends on the text alone (it is named `parsed_ymd`),
/// a date that comes back is a valid calendar date, and the text that
/// `chrono` writes for a date (`Display`, the same format) reads back as that
/// date. Which other texts `chrono` accepts is left unsaid.
#[verifier::external_body]
fn chrono_parse_ymd(text: &str) -> (r: Result<(i32, u32, u32), ParseError>)
    ensures
        match r {
            Ok(v) => parsed_ymd(text@) == Some(v) && valid_ymd(v.0 as int, v.1 as int, v.2 as int),
            Err(_) => parsed_ymd(text@) is None,
        },
        r is Err ==> !is_date_text(text@),
        r matches Ok(v) ==> (is_date_text(text@) ==> date_text(ymd_date(v)) == text@),
{
    NaiveDate::parse_from_str(text, "%Y-%m-%d").map(|d| (d.year(), d.month(), d.day()))
}

/// A day of the calendar. Its year, month and day always name an existing
/// day between the first and the last year that `chrono` can hold.
#[derive(Clone, Copy, Debug)]
pub struct Date {
    year: i32,
    month: u32,
    day: u32,
}

impl View for Date {
    type V = CalendarDate;

    closed spec fn view(&self) -> CalendarDate {
        CalendarDate { year: self.year as int, month: self.month as int, day: self.day as int }
    }
}

fn leap_year(y: i32) -> (r: bool)
    requires
        min_year() <= y <= max_year(),
    ensures
        r == is_leap_year(y as int),
{
    let s: u32 = (y + 262400) as u32;
    assert(s as int % 4 == y as int % 4 && s as int % 100 == y as int % 100 && s as int % 400
        == y as int % 400);
    s % 4 == 0 && (s % 100 != 0 || s % 400 == 0)
}

impl Date {
    #[verifier::type_invariant]
    spec fn inv(self) -> bool {
        valid_ymd(self.year as int, self.month as int, self.day as int)
    }

    /// The date with the given year, month and day, or `None` where no
    /// such day exists.
    pub fn new(year: i32, month: u32, day: u32) -> (r: Option<Date>)
        ensures
            r is Some <==> valid_ymd(year as int, month as int, day as int),
            r matches Some(d) ==> d@ == (CalendarDate {
                year: year as int,
                month: month as int,
                day: day as int,
            }),
    {
        if year < -262143 || year > 262142 || month < 1 || month > 12 || day < 1 {
            return None;
        }
        let last: u32 = if month == 2 {
            if leap_year(year) {
                29
            } else {
                28
            }
        } else if month == 4 || month == 6 || month == 9 || month == 11 {
            30
        } else {
            31
        };
        if day > last {
            None
        } else {
            Some(Date { year, month, day })
        }
    }

    /// The year.
    pub fn year(&self) -> (r: i32)
        ensures
            r as int == self@.year,
            valid_ymd(self@.year, self@.month, self@.day),
    {
        proof {
            use_type_invariant(self);
        }
        self.year
    }

    /// The month, from 1 to 12.
    pub fn month(&self) -> (r: u32)
        ensures
            r as int == self@.month,
            valid_ymd(self@.year, self@.month, self@.day),
    {
        proof {
            use_type_invariant(self);
        }
        self.month
    }

    /// The day of the month, from 1.
    pub fn day(&self) -> (r: u32)
        ensures
            r as int == self@.day,
            valid_ymd(self@.year, self@.month, self@.day),
    {
        proof {
            use_type_invariant(self);
        }
        self.day
    }

    /// The text `YYYY-MM` of this date's month.
    pub fn year_month_text(&self) -> (r: String)
        ensures
            r@ == year_month_text(self@),
    {
        proof {
            use_type_invariant(self);
        }
        chrono_year_month(self.year, self.month, self.day)
    }

    /// The text `YYYY-MM-DD` of this date.
    pub fn to_text(&self) -> (r: String)
        ensures
            r@ == date_text(self@),
    {
        proof {
            use_type_invariant(self);
        }
        chrono_date_text(self.year, self.month, self.day)
    }

    /// Reads a date in the format `%Y-%m-%d` as `chrono` does.
    pub fn parse(text: &str) -> (r: Result<Date, ParseError>)
        ensures
            match r {
                Ok(d) => parsed_ymd(text@) matches Some(v) && d@ == ymd_date(v),
                Err(_) => parsed_ymd(text@) is None,
            },
            forall|d: CalendarDate|
                valid_ymd(d.year, d.month, d.day) && text@ == #[trigger] date_text(d) ==> (r matches Ok(
                    x,
                ) && x@ == d),
    {
        let r = chrono_parse_ymd(text);
        proof {
            assert forall|d: CalendarDate|
                valid_ymd(d.year, d.month, d.day) && text@ == #[trigger] date_text(d) implies (r matches Ok(
                v,
            ) && ymd_date(v) == d) by {
                let w = (d.year as i32, d.month as u32, d.day as u32);
                assert(ymd_date(w) == d);
                assert(is_date_text(text@));
                let v = r->Ok_0;
                lemma_date_text_injective(ymd_date(v), d);
            }
        }
        match r {
            Ok(v) => Ok(Date { year: v.0, month: v.1, day: v.2 }),
            Err(e) => Err(e),
        }
    }
}

} // verus!
