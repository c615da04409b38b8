//! Instants and the calendar: an instant is a whole number of seconds since
//! 1970-01-01 00:00:00 UTC, and its date key is the text a table's first
//! column shows for its day.

use crate::text::push_char;
use chrono::Datelike;
use chrono::DateTime;
use chrono::NaiveDateTime;
use vstd::prelude::*;
use vstd::string::StringExecFns;

verus! {

/// Seconds in a day.
pub const DAY_SECONDS: i64 = 86_400;

/// The first second of the earliest day the calendar covers.
pub const EARLIEST_SECONDS: i64 = -8_334_601_228_800;

/// The last second of the latest day the calendar covers.
pub const LATEST_SECONDS: i64 = 8_210_266_876_799;

/// Whether `secs` lies on a day the calendar covers.
pub open spec fn in_calendar(secs: int) -> bool {
    EARLIEST_SECONDS <= secs <= LATEST_SECONDS
}

/// The number of the UTC day that holds the instant `secs`, counted from
/// 1970-01-01.
pub open spec fn day_of(secs: int) -> int {
    secs / 86_400
}

/// The seconds that have passed of its UTC day at the instant `secs`.
pub open spec fn second_of_day(secs: int) -> int {
    secs % 86_400
}

/// The first day the calendar covers, counted from 1970-01-01.
pub const EARLIEST_DAY: i64 = -96_465_292;

/// The last day the calendar covers, counted from 1970-01-01.
pub const LATEST_DAY: i64 = 95_026_236;

/// Year, month and day of month, in the proleptic Gregorian calendar, of the
/// UTC day with number `day` (days since 1970-01-01). The days are counted in
/// eras of 400 years, which are 146 097 days, and an era's years from 1 March,
/// so that a leap day is the last day of its year.
pub open spec fn civil_date(day: int) -> (int, int, int) {
    let since_march_0000 = day + 719_468;
    let era = since_march_0000 / 146_097;
    let day_of_era = since_march_0000 % 146_097;
    let year_of_era = (day_of_era - day_of_era / 1_460 + day_of_era / 36_524 - day_of_era
        / 146_096) / 365;
    let day_of_year = day_of_era - (365 * year_of_era + year_of_era / 4 - year_of_era / 100);
    let month_from_march = (5 * day_of_year + 2) / 153;
    let day_of_month = day_of_year - (153 * month_from_march + 2) / 5 + 1;
    let month = if month_from_march < 10 {
        month_from_march + 3
    } else {
        month_from_march - 9
    };
    let year = year_of_era + era * 400 + if month <= 2 {
        1int
    } else {
        0int
    };
    (year, month, day_of_month)
}

/// Months count from 1 to 12 and days of month from 1 to 31; on the days the
/// calendar covers the year lies between -262143 and 262142.
pub proof fn lemma_civil_date_in_range(day: int)
    ensures
        1 <= civil_date(day).1 <= 12,
        1 <= civil_date(day).2 <= 31,
        EARLIEST_DAY <= day <= LATEST_DAY ==> -262_143 <= civil_date(day).0 <= 262_142,
{
}

/// Whether `year` is a leap year: divisible by 4, and not by 100 unless by
/// 400.
pub open spec fn is_leap_year(year: int) -> bool {
    year % 4 == 0 && (year % 100 != 0 || year % 400 == 0)
}

/// The days of the month `month` of `year`.
pub open spec fn days_in_month(year: int, month: int) -> int {
    if month == 2 {
        if is_leap_year(year) {
            29
        } else {
            28
        }
    } else if month == 4 || month == 6 || month == 9 || month == 11 {
        30
    } else {
        31
    }
}

/// The date of the day after `date`.
pub open spec fn next_date(date: (int, int, int)) -> (int, int, int) {
    if date.2 < days_in_month(date.0, date.1) {
        (date.0, date.1, date.2 + 1)
    } else if date.1 < 12 {
        (date.0, date.1 + 1, 1)
    } else {
        (date.0 + 1, 1, 1)
    }
}

/// A civil date is a date of its month: the day of month is no more than the
/// month has days.
pub proof fn lemma_civil_date_in_month(day: int)
    ensures
        1 <= civil_date(day).2 <= days_in_month(civil_date(day).0, civil_date(day).1),
{
}

/// The year of a 400-year era that holds the era's day `day_of_era`, with the
/// years counted from 1 March.
spec fn year_in_era(day_of_era: int) -> int {
    (day_of_era - day_of_era / 1_460 + day_of_era / 36_524 - day_of_era / 146_096) / 365
}

/// The day of its year, counted from 1 March, of the era's day `day_of_era`.
spec fn day_in_year(day_of_era: int) -> int {
    day_of_era - (365 * year_in_era(day_of_era) + year_in_era(day_of_era) / 4 - year_in_era(
        day_of_era,
    ) / 100)
}

/// The days of the year `year_of_era` of an era, counted from 1 March: the
/// leap day is the last day of the year before a leap year's March.
spec fn days_in_era_year(year_of_era: int) -> int {
    if year_of_era % 4 == 3 && (year_of_era % 100 != 99 || year_of_era == 399) {
        366
    } else {
        365
    }
}

/// The month, counted from March as 0, of the day `day_of_year` of a year
/// that starts on 1 March.
spec fn month_from_march(day_of_year: int) -> int {
    (5 * day_of_year + 2) / 153
}

/// The day of its month of the day `day_of_year` of a year that starts on 1
/// March.
spec fn day_in_month(day_of_year: int) -> int {
    day_of_year - (153 * month_from_march(day_of_year) + 2) / 5 + 1
}

#[verifier::rlimit(100)]
#[verifier::spinoff_prover]
proof fn lemma_year_step(day_of_era: int)
    requires
        0 <= day_of_era < 146_096,
    ensures
        0 <= year_in_era(day_of_era) <= 399,
        0 <= day_in_year(day_of_era) < days_in_era_year(year_in_era(day_of_era)),
        if day_in_year(day_of_era) + 1 < days_in_era_year(year_in_era(day_of_era)) {
            year_in_era(day_of_era + 1) == year_in_era(day_of_era) && day_in_year(day_of_era + 1)
                == day_in_year(day_of_era) + 1
        } else {
            year_in_era(day_of_era + 1) == year_in_era(day_of_era) + 1 && day_in_year(
                day_of_era + 1,
            ) == 0
        },
{
    let century = day_of_era / 36_524;
    let olympiad = day_of_era / 1_460;
    let next_century = (day_of_era + 1) / 36_524;
    let next_olympiad = (day_of_era + 1) / 1_460;
    assert(day_of_era / 146_096 == 0);
    assert(0 <= century <= 3 && 0 <= olympiad <= 100);
    assert(next_century == century || next_century == century + 1);
    assert(next_olympiad == olympiad || next_olympiad == olympiad + 1);
    let year = (day_of_era - olympiad + century) / 365;
    assert(year == year_in_era(day_of_era));
    assert(0 <= year <= 399);
}

proof fn lemma_month_step(day_of_year: int)
    requires
        0 <= day_of_year < 365,
    ensures
        0 <= month_from_march(day_of_year) <= 11,
        1 <= day_in_month(day_of_year) <= 31,
        month_from_march(day_of_year + 1) == month_from_march(day_of_year) && day_in_month(
            day_of_year + 1,
        ) == day_in_month(day_of_year) + 1 || month_from_march(day_of_year + 1)
            == month_from_march(day_of_year) + 1 && day_in_month(day_of_year + 1) == 1
            && day_in_month(day_of_year) == (if month_from_march(day_of_year) == 1
            || month_from_march(day_of_year) == 3 || month_from_march(day_of_year) == 6
            || month_from_march(day_of_year) == 8 {
            30int
        } else {
            31int
        }) && month_from_march(day_of_year) <= 10,
{
}

/// The civil date of day `day_of_era` of the era with number `era`.
spec fn date_in_era(era: int, day_of_era: int) -> (int, int, int) {
    let month = if month_from_march(day_in_year(day_of_era)) < 10 {
        month_from_march(day_in_year(day_of_era)) + 3
    } else {
        month_from_march(day_in_year(day_of_era)) - 9
    };
    (
        year_in_era(day_of_era) + era * 400 + if month <= 2 {
            1int
        } else {
            0int
        },
        month,
        day_in_month(day_in_year(day_of_era)),
    )
}

proof fn lemma_civil_date_by_era(day: int)
    ensures
        civil_date(day) == date_in_era((day + 719_468) / 146_097, (day + 719_468) % 146_097),
{
}

proof fn lemma_day_step_in_year(era: int, day_of_era: int)
    requires
        0 <= day_of_era < 146_096,
        day_in_year(day_of_era) + 1 < days_in_era_year(year_in_era(day_of_era)),
        date_in_era(era, day_of_era + 1).2 <= days_in_month(
            date_in_era(era, day_of_era + 1).0,
            date_in_era(era, day_of_era + 1).1,
        ),
    ensures
        date_in_era(era, day_of_era + 1) == next_date(date_in_era(era, day_of_era)),
{
    lemma_year_step(day_of_era);
    lemma_month_step(day_in_year(day_of_era));
}

proof fn lemma_day_step_to_march(era: int, day_of_era: int)
    requires
        0 <= day_of_era < 146_096,
        day_in_year(day_of_era) + 1 == days_in_era_year(year_in_era(day_of_era)),
    ensures
        date_in_era(era, day_of_era + 1) == next_date(date_in_era(era, day_of_era)),
{
    lemma_year_step(day_of_era);
    let year = year_in_era(day_of_era);
    let day_of_year = day_in_year(day_of_era);
    assert(month_from_march(day_of_year) == 11);
    assert(month_from_march(0) == 0 && day_in_month(0) == 1);
    assert(day_in_month(day_of_year) == day_of_year - 336);
    assert(is_leap_year(year + 1 + era * 400) <==> days_in_era_year(year) == 366);
}

/// The civil dates are those of the Gregorian calendar: day 0 is 1 January
/// 1970, and every day's date is the date after that of the day before, by
/// the lengths of the months and the rule of the leap years.
pub proof fn lemma_civil_date_is_gregorian(day: int)
    ensures
        civil_date(0) == (1970int, 1int, 1int),
        civil_date(day + 1) == next_date(civil_date(day)),
{
    let era = (day + 719_468) / 146_097;
    let day_of_era = (day + 719_468) % 146_097;
    lemma_civil_date_by_era(day);
    lemma_civil_date_by_era(day + 1);
    lemma_civil_date_in_month(day + 1);
    if day_of_era == 146_096 {
        assert((day + 1 + 719_468) / 146_097 == era + 1 && (day + 1 + 719_468) % 146_097 == 0);
        assert(date_in_era(era, 146_096) == (400 * era + 400, 2int, 29int));
        assert(date_in_era(era + 1, 0) == (400 * era + 400, 3int, 1int));
        assert(is_leap_year(400 * era + 400));
    } else {
        assert((day + 1 + 719_468) / 146_097 == era && (day + 1 + 719_468) % 146_097
            == day_of_era + 1);
        lemma_year_step(day_of_era);
        if day_in_year(day_of_era) + 1 < days_in_era_year(year_in_era(day_of_era)) {
            lemma_day_step_in_year(era, day_of_era);
        } else {
            lemma_day_step_to_march(era, day_of_era);
        }
    }
}

/// The civil date of the day with number `day`, computed.
pub fn civil_date_of_day(day: i64) -> (date: (i64, i64, i64))
    requires
        EARLIEST_DAY <= day <= LATEST_DAY,
    ensures
        (date.0 as int, date.1 as int, date.2 as int) == civil_date(day as int),
{
    let shifted: i64 = day + 719_468 + 700 * 146_097;
    let era: i64 = shifted / 146_097 - 700;
    let day_of_era: i64 = shifted % 146_097;
    proof {
        let since_march_0000 = day + 719_468;
        assert(era == since_march_0000 / 146_097 && day_of_era == since_march_0000 % 146_097)
            by (nonlinear_arith)
            requires
                shifted == since_march_0000 + 700 * 146_097,
                era == shifted / 146_097 - 700,
                day_of_era == shifted % 146_097,
        ;
    }
    assert(0 <= day_of_era < 146_097);
    let year_of_era: i64 = (day_of_era - day_of_era / 1_460 + day_of_era / 36_524 - day_of_era
        / 146_096) / 365;
    assert(0 <= year_of_era <= 399);
    let day_of_year: i64 = day_of_era - (365 * year_of_era + year_of_era / 4 - year_of_era / 100);
    assert(0 <= day_of_year <= 365);
    let month_from_march: i64 = (5 * day_of_year + 2) / 153;
    let day_of_month: i64 = day_of_year - (153 * month_from_march + 2) / 5 + 1;
    let month: i64 = if month_from_march < 10 {
        month_from_march + 3
    } else {
        month_from_march - 9
    };
    let year: i64 = year_of_era + era * 400 + if month <= 2 {
        1
    } else {
        0
    };
    (year, month, day_of_month)
}

/// `DateTime::from_timestamp` with no nanoseconds, then `Datelike::year`,
/// `month` and `day` of the result. The instant has a date exactly when it lies
/// between the first second of the year -262143 and the last second of the
/// year 262142. The date is the proleptic Gregorian date of the day `secs`
/// falls on, whatever the time of day.
#[verifier::external_body]
fn civil_from_unix(secs: i64) -> (r: Option<(i32, u32, u32)>)
    ensures
        r is Some <==> in_calendar(secs as int),
        r matches Some(d) ==> (d.0 as int, d.1 as int, d.2 as int) == civil_date(
            day_of(secs as int),
        ),
{
    let at = DateTime::from_timestamp(secs, 0)?;
    Some((at.year(), at.month(), at.day()))
}

/// The seconds since 1970-01-01 00:00:00 UTC of the date and time that `text`
/// holds in the form `pattern`, read as UTC; none where `text` is not of that
/// form.
pub uninterp spec fn parsed_seconds(text: Seq<char>, pattern: Seq<char>) -> Option<int>;

/// `NaiveDateTime::parse_from_str`, then `NaiveDateTime::and_utc` and
/// `DateTime::timestamp` of what it gives. The result is a function of the
/// two texts; nothing more is claimed of it.
#[verifier::external_body]
pub(crate) fn parse_seconds(text: &str, pattern: &str) -> (r: Option<i64>)
    ensures
        parsed_seconds(text@, pattern@) == match r {
            Some(secs) => Some(secs as int),
            None => None,
        },
{
    match NaiveDateTime::parse_from_str(text, pattern) {
        Ok(at) => Some(at.and_utc().timestamp()),
        Err(_) => None,
    }
}

/// A point in time, to the second, on a day the calendar covers.
#[derive(Clone, Copy, Debug, PartialEq, Eq)]
pub struct Instant {
    secs: i64,
}

impl View for Instant {
    type V = int;

    closed spec fn view(&self) -> int {
        self.secs as int
    }
}

impl Instant {
    #[verifier::type_invariant]
    spec fn covered(self) -> bool {
        in_calendar(self.secs as int)
    }

    /// The instant `secs` seconds after 1970-01-01 00:00:00 UTC, if the
    /// calendar covers it.
    pub fn from_unix_seconds(secs: i64) -> (r: Option<Instant>)
        ensures
            r is Some <==> in_calendar(secs as int),
            r matches Some(t) ==> t@ == secs,
    {
        if EARLIEST_SECONDS <= secs && secs <= LATEST_SECONDS {
            Some(Instant { secs })
        } else {
            None
        }
    }

    /// Seconds since 1970-01-01 00:00:00 UTC.
    pub fn unix_seconds(&self) -> (r: i64)
        ensures
            r == self@,
            in_calendar(self@),
    {
        proof {
            use_type_invariant(self);
        }
        self.secs
    }
}

/// The decimal digit for `d`.
pub open spec fn digit(d: int) -> char {
    if d == 0 {
        '0'
    } else if d == 1 {
        '1'
    } else if d == 2 {
        '2'
    } else if d == 3 {
        '3'
    } else if d == 4 {
        '4'
    } else if d == 5 {
        '5'
    } else if d == 6 {
        '6'
    } else if d == 7 {
        '7'
    } else if d == 8 {
        '8'
    } else {
        '9'
    }
}

/// `n` in decimal, without leading zeros.
pub open spec fn decimal(n: nat) -> Seq<char>
    decreases n,
{
    if n < 10 {
        seq![digit(n as int)]
    } else {
        decimal(n / 10).push(digit((n % 10) as int))
    }
}

/// `n` in decimal, with zeros in front up to four digits.
pub open spec fn four_digits(n: nat) -> Seq<char> {
    if n < 10 {
        seq!['0', '0', '0'] + decimal(n)
    } else if n < 100 {
        seq!['0', '0'] + decimal(n)
    } else if n < 1000 {
        seq!['0'] + decimal(n)
    } else {
        decimal(n)
    }
}

/// The year as a date key shows it: four digits from 0 to 9999; outside that
/// a sign, then at least four digits.
pub open spec fn year_text(year: int) -> Seq<char> {
    if 0 <= year <= 9999 {
        four_digits(year as nat)
    } else if year < 0 {
        seq!['-'] + four_digits((-year) as nat)
    } else {
        seq!['+'] + decimal(year as nat)
    }
}

/// The English name of the month with number `month`, from 1 to 12.
pub open spec fn month_name(month: int) -> Seq<char> {
    if month == 1 {
        "January"@
    } else if month == 2 {
        "February"@
    } else if month == 3 {
        "March"@
    } else if month == 4 {
        "April"@
    } else if month == 5 {
        "May"@
    } else if month == 6 {
        "June"@
    } else if month == 7 {
        "July"@
    } else if month == 8 {
        "August"@
    } else if month == 9 {
        "September"@
    } else if month == 10 {
        "October"@
    } else if month == 11 {
        "November"@
    } else {
        "December"@
    }
}

/// The date key of a calendar date: the day of month without a leading zero,
/// the month's name in full, the year, with one space between them.
pub open spec fn date_text(date: (int, int, int)) -> Seq<char> {
    decimal(date.2 as nat) + seq![' '] + month_name(date.1) + seq![' '] + year_text(date.0)
}

/// The date key of the day that holds the instant `secs`.
pub open spec fn date_key_of(secs: int) -> Seq<char> {
    date_text(civil_date(day_of(secs)))
}

fn digit_char(d: u32) -> (c: char)
    requires
        d < 10,
    ensures
        c == digit(d as int),
{
    if d == 0 {
        '0'
    } else if d == 1 {
        '1'
    } else if d == 2 {
        '2'
    } else if d == 3 {
        '3'
    } else if d == 4 {
        '4'
    } else if d == 5 {
        '5'
    } else if d == 6 {
        '6'
    } else if d == 7 {
        '7'
    } else if d == 8 {
        '8'
    } else {
        '9'
    }
}

fn push_decimal(out: &mut String, n: u32)
    ensures
        final(out)@ == old(out)@ + decimal(n as nat),
    decreases n,
{
    if n >= 10 {
        push_decimal(out, n / 10);
    }
    push_char(out, digit_char(n % 10));
}

fn push_year(out: &mut String, year: i32)
    ensures
        final(out)@ == old(out)@ + year_text(year as int),
{
    let size: u32 = if year < 0 {
        push_char(out, '-');
        if year == i32::MIN {
            2_147_483_648u32
        } else {
            (-year) as u32
        }
    } else {
        if year > 9999 {
            push_char(out, '+');
        }
        year as u32
    };
    if year <= 9999 {
        if size < 10 {
            out.append("000");
        } else if size < 100 {
            out.append("00");
        } else if size < 1000 {
            out.append("0");
        }
    }
    proof {
        reveal_strlit("000");
        reveal_strlit("00");
        reveal_strlit("0");
    }
    push_decimal(out, size);
}

fn month_label(month: u32) -> (name: &'static str)
    ensures
        name@ == month_name(month as int),
{
    if month == 1 {
        "January"
    } else if month == 2 {
        "February"
    } else if month == 3 {
        "March"
    } else if month == 4 {
        "April"
    } else if month == 5 {
        "May"
    } else if month == 6 {
        "June"
    } else if month == 7 {
        "July"
    } else if month == 8 {
        "August"
    } else if month == 9 {
        "September"
    } else if month == 10 {
        "October"
    } else if month == 11 {
        "November"
    } else {
        "December"
    }
}

/// The date key of the day that holds `at`, such as `22 November 2025`.
pub fn date_key(at: &Instant) -> (key: String)
    ensures
        key@ == date_key_of(at@),
{
    let (year, month, day) = civil_from_unix(at.unix_seconds()).unwrap();
    date_text_of(year, month, day)
}

/// The date key of a calendar date, such as `22 November 2025` for 2025, 11
/// and 22. A month other than 1 to 11 is named as December.
pub fn date_text_of(year: i32, month: u32, day: u32) -> (key: String)
    ensures
        key@ == date_text((year as int, month as int, day as int)),
{
    let mut key = String::new();
    push_decimal(&mut key, day);
    push_char(&mut key, ' ');
    key.append(month_label(month));
    push_char(&mut key, ' ');
    push_year(&mut key, year);
    key
}

} // verus!
