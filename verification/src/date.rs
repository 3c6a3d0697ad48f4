//! From text to a date inside the window.

use vstd::pervasive::unreached;
use vstd::prelude::*;

use crate::error::{Error, ErrorKind, Failure};
use crate::number::{decimal_value, is_digit, lemma_short_digits, parse_u16, parsed_u16};
use crate::pattern::{capture_date, date_fields, is_plain_date};
use crate::zone::{local_date, local_midnight, nsw_date, nsw_midnight, CivilDate, LocalMidnight};

verus! {

/// The year of the first day of the window.
pub const ORIGIN_YEAR: i32 = 2020;

/// The month of the first day of the window.
pub const ORIGIN_MONTH: u32 = 1;

/// The day of the first day of the window.
pub const ORIGIN_DAY: u32 = 1;

/// How many days the last day of the window lies before today.
pub const MARGIN_DAYS: u32 = 5;

/// The day before a day of the calendar: the last day of the month
/// before on the first of a month, the last of December of the year
/// before on the first of January.
pub open spec fn day_before(date: (int, int, int)) -> (int, int, int) {
    let (year, month, day) = date;
    if day > 1 {
        (year, month, day - 1)
    } else if month > 1 {
        (year, month - 1, month_length(year, month - 1))
    } else {
        (year - 1, 12, 31)
    }
}

/// The day that lies a number of days before a day of the calendar.
pub open spec fn days_before(date: (int, int, int), days: nat) -> (int, int, int)
    decreases days,
{
    if days == 0 {
        date
    } else {
        days_before(day_before(date), (days - 1) as nat)
    }
}

/// Midnight of the first day of the window, as the zone places it.
pub open spec fn origin() -> LocalMidnight {
    nsw_midnight(ORIGIN_YEAR as int, ORIGIN_MONTH as int, ORIGIN_DAY as int)
}

/// Midnight of the last day of the window at an instant, as the zone
/// places it: of the day five days before the day that the zone
/// shows at the instant. There is none where the instant cannot be
/// counted or the year of that day cannot.
pub open spec fn last_day(now: int) -> LocalMidnight {
    match nsw_date(now) {
        Some(today) => {
            let (year, month, day) = days_before(today, MARGIN_DAYS as nat);
            if year >= i32::MIN {
                nsw_midnight(year, month, day)
            } else {
                LocalMidnight::Gap
            }
        },
        None => LocalMidnight::Gap,
    }
}

/// The zone shows this year, month and day at the instant of a date.
pub open spec fn shows_day(date: CivilDate, day: (int, int, int)) -> bool {
    nsw_date(date.timestamp as int) == Some(day)
}

/// The window begins on the origin and ends five days before the day
/// that the zone shows at the instant, as the zone shows its bounds.
pub open spec fn shows_window(window: (CivilDate, CivilDate), now: int) -> bool {
    shows_day(window.0, (ORIGIN_YEAR as int, ORIGIN_MONTH as int, ORIGIN_DAY as int)) && (nsw_date(
        now,
    ) matches Some(today) && shows_day(window.1, days_before(today, MARGIN_DAYS as nat)))
}

/// An instant has a window where the zone places midnight of its
/// first and of its last day at one instant each.
pub open spec fn has_window(now: int) -> bool {
    origin() is Unique && last_day(now) is Unique
}

/// The window for an instant: from midnight of the origin to midnight
/// of the day five days before the day that the instant lies in.
pub open spec fn is_window_of(window: (CivilDate, CivilDate), now: int) -> bool {
    origin() == LocalMidnight::Unique(window.0) && last_day(now) == LocalMidnight::Unique(
        window.1,
    )
}

/// The window of dates that may be asked for at the instant `now`,
/// given in seconds since 1970-01-01T00:00:00Z.
pub fn get_bounding_times(now: i64) -> (window: (CivilDate, CivilDate))
    requires
        has_window(now as int),
    ensures
        is_window_of(window, now as int),
        shows_window(window, now as int),
{
    let min_start = match local_midnight(ORIGIN_YEAR, ORIGIN_MONTH, ORIGIN_DAY) {
        LocalMidnight::Unique(start) => start,
        _ => unreached(),
    };
    let max_end = match find_last_day(now) {
        LocalMidnight::Unique(end) => end,
        _ => unreached(),
    };
    (min_start, max_end)
}

/// The window of dates that may be asked for at the instant `now`,
/// or nothing where the instant has no window.
pub fn try_get_bounding_times(now: i64) -> (window: Option<(CivilDate, CivilDate)>)
    ensures
        window is Some <==> has_window(now as int),
        window matches Some(w) ==> is_window_of(w, now as int) && shows_window(w, now as int),
{
    match (local_midnight(ORIGIN_YEAR, ORIGIN_MONTH, ORIGIN_DAY), find_last_day(now)) {
        (LocalMidnight::Unique(_), LocalMidnight::Unique(_)) => Some(get_bounding_times(now)),
        _ => None,
    }
}

/// Where the zone places midnight of the last day of the window at
/// an instant.
pub fn find_last_day(now: i64) -> (found: LocalMidnight)
    ensures
        found == last_day(now as int),
        found matches LocalMidnight::Unique(end) ==> (nsw_date(now as int) matches Some(today)
            && shows_day(end, days_before(today, MARGIN_DAYS as nat))),
{
    match local_date(now) {
        Some((year, month, day)) => match date_before(year, month, day, MARGIN_DAYS) {
            Some((year, month, day)) => local_midnight(year, month, day),
            None => LocalMidnight::Gap,
        },
        None => LocalMidnight::Gap,
    }
}

/// The day that lies a number of days before a day, or nothing where
/// its year is beyond counting.
pub fn date_before(year: i32, month: u32, day: u32, days: u32) -> (date: Option<(i32, u32, u32)>)
    ensures
        match date {
            Some((y, m, d)) => days_before((year as int, month as int, day as int), days as nat)
                == (y as int, m as int, d as int),
            None => days_before((year as int, month as int, day as int), days as nat).0
                < i32::MIN,
        },
{
    let ghost first = (year as int, month as int, day as int);
    let mut y: i32 = year;
    let mut m: u32 = month;
    let mut d: u32 = day;
    let mut left: u32 = days;
    while left > 0
        invariant
            first == (year as int, month as int, day as int),
            days_before(first, days as nat) == days_before(
                (y as int, m as int, d as int),
                left as nat,
            ),
        decreases left,
    {
        if d > 1 {
            d = d - 1;
        } else if m > 1 {
            m = m - 1;
            d = month_days(y, m);
        } else if y > i32::MIN {
            y = y - 1;
            m = 12;
            d = 31;
        } else {
            proof {
                let today = (y as int, m as int, d as int);
                assert(days_before(today, left as nat) == days_before(
                    day_before(today),
                    (left - 1) as nat,
                ));
                lemma_days_before_year(day_before(today), (left - 1) as nat);
            }
            return None;
        }
        left = left - 1;
    }
    Some((y, m, d))
}

/// The number of days of a month of a year, for every year that can
/// be counted.
pub fn month_days(year: i32, month: u32) -> (days: u32)
    ensures
        days == month_length(year as int, month as int),
{
    match month {
        2 => {
            if year % 400 == 0 {
                29
            } else if year % 100 == 0 {
                28
            } else if year % 4 == 0 {
                29
            } else {
                28
            }
        },
        1 | 3 | 5 | 7 | 8 | 10 | 12 => 31,
        _ => 30,
    }
}

/// Going back in the calendar never reaches a later year.
pub proof fn lemma_days_before_year(date: (int, int, int), days: nat)
    ensures
        days_before(date, days).0 <= date.0,
    decreases days,
{
    if days > 0 {
        lemma_days_before_year(day_before(date), (days - 1) as nat);
    }
}

/// The day before a day of the calendar is a day of the calendar.
pub proof fn lemma_day_before_is_calendar_date(date: (int, int, int))
    requires
        is_calendar_date(date.0, date.1, date.2),
    ensures
        is_calendar_date(day_before(date).0, day_before(date).1, day_before(date).2),
{
}

/// The day a number of days before a day of the calendar is a day of
/// the calendar.
pub proof fn lemma_days_before_is_calendar_date(date: (int, int, int), days: nat)
    requires
        is_calendar_date(date.0, date.1, date.2),
    ensures
        is_calendar_date(
            days_before(date, days).0,
            days_before(date, days).1,
            days_before(date, days).2,
        ),
    decreases days,
{
    if days > 0 {
        lemma_day_before_is_calendar_date(date);
        lemma_days_before_is_calendar_date(day_before(date), (days - 1) as nat);
    }
}

/// The nearest date of the window: its first below it, its last above
/// it, the date itself inside it.
pub open spec fn clamped(date: CivilDate, min: CivilDate, max: CivilDate) -> CivilDate {
    if date.timestamp < min.timestamp {
        min
    } else if date.timestamp > max.timestamp {
        max
    } else {
        date
    }
}

/// Moves a date into the window from `min` to `max`, both of which
/// belong to it.
pub fn clamp(date: CivilDate, min: CivilDate, max: CivilDate) -> (nearest: CivilDate)
    requires
        min.timestamp <= max.timestamp,
    ensures
        nearest == clamped(date, min, max),
        min.timestamp <= nearest.timestamp <= max.timestamp,
{
    if date.timestamp < min.timestamp {
        min
    } else if date.timestamp > max.timestamp {
        max
    } else {
        date
    }
}

/// The date that the zone gives for year, month and day: its one
/// instant of midnight, where there is one.
pub open spec fn instant_of(year: int, month: int, day: int, found: LocalMidnight) -> Result<
    CivilDate,
    Failure,
> {
    match found {
        LocalMidnight::Unique(date) => Ok(date),
        _ => Err(Failure::NoSingleDate(year, month, day)),
    }
}

/// The date of checked numbers, as the zone places it.
pub open spec fn date_of_numbers(numbers: Result<(int, int, int), Failure>) -> Result<
    CivilDate,
    Failure,
> {
    match numbers {
        Ok((year, month, day)) => instant_of(year, month, day, nsw_midnight(year, month, day)),
        Err(failure) => Err(failure),
    }
}

/// Year, month and day that the digits in the fields of a text write.
pub open spec fn written_numbers(text: Seq<char>) -> (int, int, int) {
    let fields = date_fields(text);
    (decimal_value(fields[0]), decimal_value(fields[1]), decimal_value(fields[2]))
}

/// The date that a text writes: the text has to have the written form
/// of a date, the numbers that its digits write have to name a day of
/// the calendar, and the zone has to place midnight of that day at
/// one instant.
pub open spec fn parsed_date(text: Seq<char>) -> Result<CivilDate, Failure> {
    if is_plain_date(text) {
        let (year, month, day) = written_numbers(text);
        date_of_numbers(checked_date(year, month, day))
    } else {
        Err(Failure::CouldNotParseDate(text))
    }
}

/// The date of a model, moved into the window.
pub open spec fn clamped_date(model: Result<CivilDate, Failure>, min: CivilDate, max: CivilDate)
    -> Result<CivilDate, Failure> {
    match model {
        Ok(date) => Ok(clamped(date, min, max)),
        Err(failure) => Err(failure),
    }
}

/// The zone shows at the instant of a date the year, month and day
/// that a text writes.
pub open spec fn shows_numbers(date: CivilDate, text: Seq<char>) -> bool {
    shows_day(date, written_numbers(text))
}

/// An outcome with a date in it says what the model says.
pub open spec fn date_agrees(outcome: Result<CivilDate, Error>, model: Result<CivilDate, Failure>)
    -> bool {
    match model {
        Ok(date) => outcome == Ok::<CivilDate, Error>(date),
        Err(failure) => outcome matches Err(e) && e@ == failure,
    }
}

/// A text can be moved into a window where it writes no date or the
/// window is not empty.
pub open spec fn can_clamp(min: CivilDate, max: CivilDate, text: Seq<char>) -> bool {
    parsed_date(text) is Ok ==> min.timestamp <= max.timestamp
}

/// Reads a date from text and moves it into the window from `min` to
/// `max`.
pub fn parse_and_clamp(min: CivilDate, max: CivilDate, date: &str) -> (outcome: Result<
    CivilDate,
    Error,
>)
    requires
        can_clamp(min, max, date@),
    ensures
        date_agrees(outcome, clamped_date(parsed_date(date@), min, max)),
        !is_plain_date(date@) ==> date_agrees(outcome, Err(Failure::CouldNotParseDate(date@))),
        parsed_date(date@) matches Ok(parsed) ==> shows_numbers(parsed, date@),
        outcome matches Ok(d) ==> min.timestamp <= d.timestamp <= max.timestamp,
{
    match parse_date(date) {
        Ok(d) => Ok(clamp(d, min, max)),
        Err(e) => Err(e),
    }
}

/// Reads a date from text and moves it into the window from `min` to
/// `max`, or does nothing where the text writes a date and the window
/// is empty.
pub fn try_parse_and_clamp(min: CivilDate, max: CivilDate, date: &str) -> (outcome: Option<
    Result<CivilDate, Error>,
>)
    ensures
        outcome is Some <==> can_clamp(min, max, date@),
        outcome matches Some(o) ==> date_agrees(
            o,
            clamped_date(parsed_date(date@), min, max),
        ),
{
    if min.timestamp <= max.timestamp {
        Some(parse_and_clamp(min, max, date))
    } else {
        match parse_date(date) {
            Ok(_) => None,
            Err(e) => Some(Err(e)),
        }
    }
}

/// Reads a date from text of the form `YYYY-MM-DD`.
pub fn parse_date(s: &str) -> (outcome: Result<CivilDate, Error>)
    ensures
        date_agrees(outcome, parsed_date(s@)),
        !is_plain_date(s@) ==> date_agrees(outcome, Err(Failure::CouldNotParseDate(s@))),
        outcome matches Ok(d) ==> shows_numbers(d, s@),
{
    let fields = match date_string_to_components(s) {
        Ok(fields) => fields,
        Err(e) => {
            return Err(e);
        },
    };
    proof {
        lemma_plain_fields(s@);
    }
    let numbers = match components_to_numbers(fields) {
        Ok(numbers) => numbers,
        Err(e) => {
            return Err(e);
        },
    };
    let y: u16 = numbers[0];
    let m: u16 = numbers[1];
    let d: u16 = numbers[2];
    single_date(y, m, d, local_midnight(y as i32, m as u32, d as u32))
}

/// The date of year, month and day, given where the zone places
/// their midnight.
pub fn single_date(year: u16, month: u16, day: u16, found: LocalMidnight) -> (outcome: Result<
    CivilDate,
    Error,
>)
    ensures
        date_agrees(outcome, instant_of(year as int, month as int, day as int, found)),
{
    match found {
        LocalMidnight::Unique(date) => Ok(date),
        _ => Err(Error::new(ErrorKind::NoSingleDate(year, month, day))),
    }
}

/// The fields of a text of the written form are numbers below 10000,
/// so reading them cannot fail: what is read is what the digits
/// write, checked against the calendar.
pub proof fn lemma_plain_fields(text: Seq<char>)
    requires
        is_plain_date(text),
    ensures
        checked_numbers(date_fields(text)[0], date_fields(text)[1], date_fields(text)[2])
            == checked_date(
            written_numbers(text).0,
            written_numbers(text).1,
            written_numbers(text).2,
        ),
        0 <= written_numbers(text).0 <= 9999,
        0 <= written_numbers(text).1 <= 99,
        0 <= written_numbers(text).2 <= 99,
{
    let fields = date_fields(text);
    assert forall|k: int, i: int| 0 <= k < 3 && 0 <= i < fields[k].len() implies is_digit(
        #[trigger] fields[k][i],
    ) by {
        if k == 0 {
            assert(fields[k][i] == text[i]);
        } else if k == 1 {
            assert(fields[k][i] == text[i + 5]);
        } else {
            assert(fields[k][i] == text[i + 8]);
        }
    }
    lemma_short_digits(fields[0]);
    lemma_short_digits(fields[1]);
    lemma_short_digits(fields[2]);
}

/// Takes the fields of a date, as they are written, out of a text of
/// the form `YYYY-MM-DD`.
pub fn date_string_to_components<'a>(s: &'a str) -> (outcome: Result<[&'a str; 3], Error>)
    ensures
        outcome is Ok <==> is_plain_date(s@),
        outcome matches Ok(f) ==> f[0]@ == date_fields(s@)[0] && f[1]@ == date_fields(s@)[1]
            && f[2]@ == date_fields(s@)[2],
        outcome matches Err(e) ==> e@ == Failure::CouldNotParseDate(s@),
{
    match capture_date("^([0-9]{4})-([0-9]{2})-([0-9]{2})$", s) {
        None => Err(Error::new(ErrorKind::CouldNotParseDate(s.to_owned()))),
        Some(fields) => Ok(fields),
    }
}

/// A leap year of the proleptic Gregorian calendar.
pub open spec fn is_leap_year(year: int) -> bool {
    year % 400 == 0 || (year % 4 == 0 && year % 100 != 0)
}

/// The number of days of a month. February has 29 days in a leap year
/// and 28 otherwise; months 1, 3, 5, 7, 8, 10 and 12 have 31; every
/// other number counts 30.
pub open spec fn month_length(year: int, month: int) -> int {
    if month == 2 {
        if is_leap_year(year) {
            29
        } else {
            28
        }
    } else if month == 1 || month == 3 || month == 5 || month == 7 || month == 8 || month == 10
        || month == 12 {
        31
    } else {
        30
    }
}

/// Year, month and day name a day of the calendar.
pub open spec fn is_calendar_date(year: int, month: int, day: int) -> bool {
    1 <= month <= 12 && 1 <= day <= month_length(year, month)
}

/// Three numbers as a date: the month is judged first, then the day
/// against the length of that month.
pub open spec fn checked_date(year: int, month: int, day: int) -> Result<(int, int, int), Failure> {
    if !(1 <= month <= 12) {
        Err(Failure::InvalidMonth(month))
    } else if !(1 <= day <= month_length(year, month)) {
        Err(Failure::InvalidDateForMonth(month, day))
    } else {
        Ok((year, month, day))
    }
}

/// Three fields as a date: each is read as a number, the first that is
/// none fails with its index, and the numbers are then judged together.
pub open spec fn checked_numbers(year: Seq<char>, month: Seq<char>, day: Seq<char>) -> Result<
    (int, int, int),
    Failure,
> {
    match (parsed_u16(year), parsed_u16(month), parsed_u16(day)) {
        (None, _, _) => Err(Failure::CouldNotParseNumericComponent(0, year)),
        (Some(_), None, _) => Err(Failure::CouldNotParseNumericComponent(1, month)),
        (Some(_), Some(_), None) => Err(Failure::CouldNotParseNumericComponent(2, day)),
        (Some(y), Some(m), Some(d)) => checked_date(y as int, m as int, d as int),
    }
}

/// An outcome with numbers in it says what the model says.
pub open spec fn numbers_agree(
    outcome: Result<[u16; 3], Error>,
    model: Result<(int, int, int), Failure>,
) -> bool {
    match model {
        Ok((year, month, day)) => outcome matches Ok(n) && n[0] == year && n[1] == month && n[2]
            == day,
        Err(failure) => outcome matches Err(e) && e@ == failure,
    }
}

/// Reads year, month and day from their fields and checks that they
/// name a day of the calendar.
pub fn components_to_numbers(c: [&str; 3]) -> (outcome: Result<[u16; 3], Error>)
    ensures
        numbers_agree(outcome, checked_numbers(c[0]@, c[1]@, c[2]@)),
{
    let mut r: [u16; 3] = [0, 0, 0];
    let mut i: usize = 0;
    while i < 3
        invariant
            i <= 3,
            i > 0 ==> parsed_u16(c[0]@) == Some(r[0]),
            i > 1 ==> parsed_u16(c[1]@) == Some(r[1]),
            i > 2 ==> parsed_u16(c[2]@) == Some(r[2]),
        decreases 3 - i,
    {
        match parse_u16(c[i]) {
            Some(n) => {
                r[i] = n;
            },
            None => {
                return Err(
                    Error::new(ErrorKind::CouldNotParseNumericComponent(i, c[i].to_owned())),
                );
            },
        }
        i = i + 1;
    }
    if r[1] < 1 || r[1] > 12 {
        Err(Error::new(ErrorKind::InvalidMonth(r[1])))
    } else if r[2] < 1 || r[2] > days_in_month(r[0], r[1]) {
        Err(Error::new(ErrorKind::InvalidDateForMonth(r[1], r[2])))
    } else {
        Ok(r)
    }
}

/// The number of days of a month of a year.
pub fn days_in_month(y: u16, m: u16) -> (days: u16)
    ensures
        days == month_length(y as int, m as int),
{
    month_days(y as i32, m as u32) as u16
}

/// Months 1, 3, 5, 7, 8, 10 and 12 have 31 days, months 4, 6, 9 and 11
/// have 30, and February has 29 days in a leap year and 28 in any
/// other.
pub proof fn lemma_month_lengths(year: int)
    ensures
        month_length(year, 1) == 31,
        month_length(year, 2) == if is_leap_year(year) {
            29int
        } else {
            28int
        },
        month_length(year, 3) == 31,
        month_length(year, 4) == 30,
        month_length(year, 5) == 31,
        month_length(year, 6) == 30,
        month_length(year, 7) == 31,
        month_length(year, 8) == 31,
        month_length(year, 9) == 30,
        month_length(year, 10) == 31,
        month_length(year, 11) == 30,
        month_length(year, 12) == 31,
{
}

/// A year that 400 divides is a leap year; of the others, one that
/// 100 divides is none; of the rest, one that 4 divides is one; no
/// other year is.
pub proof fn lemma_leap_year_rule(year: int)
    ensures
        year % 400 == 0 ==> is_leap_year(year),
        year % 400 != 0 && year % 100 == 0 ==> !is_leap_year(year),
        year % 100 != 0 && year % 4 == 0 ==> is_leap_year(year),
        year % 4 != 0 ==> !is_leap_year(year),
{
}

/// A month that is not one of 1 to 12 is refused as the month it is,
/// whatever the year and the day.
pub proof fn lemma_month_out_of_range(year: int, month: int, day: int)
    requires
        !(1 <= month <= 12),
    ensures
        checked_date(year, month, day) == Err::<(int, int, int), Failure>(
            Failure::InvalidMonth(month),
        ),
{
}

/// In a month of the calendar, a day that is none of the month's is
/// refused with the month and the day.
pub proof fn lemma_day_out_of_range(year: int, month: int, day: int)
    requires
        1 <= month <= 12,
        !(1 <= day <= month_length(year, month)),
    ensures
        checked_date(year, month, day) == Err::<(int, int, int), Failure>(
            Failure::InvalidDateForMonth(month, day),
        ),
{
}

/// A day of the calendar is accepted as it is.
pub proof fn lemma_calendar_date_accepted(year: int, month: int, day: int)
    requires
        is_calendar_date(year, month, day),
    ensures
        checked_date(year, month, day) == Ok::<(int, int, int), Failure>((year, month, day)),
{
}

/// In a window that is not empty, a date before it is moved to its
/// first date, a date after it to its last, and a date inside it
/// stays; what comes out lies inside.
pub proof fn lemma_clamped(date: CivilDate, min: CivilDate, max: CivilDate)
    requires
        min.timestamp <= max.timestamp,
    ensures
        date.timestamp < min.timestamp ==> clamped(date, min, max) == min,
        date.timestamp > max.timestamp ==> clamped(date, min, max) == max,
        min.timestamp <= date.timestamp <= max.timestamp ==> clamped(date, min, max) == date,
        min.timestamp <= clamped(date, min, max).timestamp <= max.timestamp,
{
}

/// A text that has not the written form of a date is refused as a
/// whole, whatever the window.
pub proof fn lemma_other_text_refused(text: Seq<char>, min: CivilDate, max: CivilDate)
    requires
        !is_plain_date(text),
    ensures
        clamped_date(parsed_date(text), min, max) == Err::<CivilDate, Failure>(
            Failure::CouldNotParseDate(text),
        ),
{
}

/// A text that writes a day of the calendar gives, in a window that
/// holds it, the one instant at which the zone shows midnight of that
/// day.
pub proof fn lemma_plain_date_kept(text: Seq<char>, date: CivilDate, min: CivilDate, max: CivilDate)
    requires
        is_plain_date(text),
        is_calendar_date(
            written_numbers(text).0,
            written_numbers(text).1,
            written_numbers(text).2,
        ),
        nsw_midnight(written_numbers(text).0, written_numbers(text).1, written_numbers(text).2)
            == LocalMidnight::Unique(date),
        min.timestamp <= date.timestamp <= max.timestamp,
    ensures
        clamped_date(parsed_date(text), min, max) == Ok::<CivilDate, Failure>(date),
{
}

/// A text of the written form whose month is not one of 1 to 12 is
/// refused for its month, and one whose day is none of its month's
/// for its day, whatever the window.
pub proof fn lemma_plain_date_refused(text: Seq<char>, min: CivilDate, max: CivilDate)
    requires
        is_plain_date(text),
    ensures
        !(1 <= written_numbers(text).1 <= 12) ==> clamped_date(parsed_date(text), min, max)
            == Err::<CivilDate, Failure>(Failure::InvalidMonth(written_numbers(text).1)),
        1 <= written_numbers(text).1 <= 12 && !(1 <= written_numbers(text).2 <= month_length(
            written_numbers(text).0,
            written_numbers(text).1,
        )) ==> clamped_date(parsed_date(text), min, max) == Err::<CivilDate, Failure>(
            Failure::InvalidDateForMonth(written_numbers(text).1, written_numbers(text).2),
        ),
{
}

/// An instant has at most one window.
pub proof fn lemma_window_unique(
    first: (CivilDate, CivilDate),
    second: (CivilDate, CivilDate),
    now: int,
)
    requires
        is_window_of(first, now),
        is_window_of(second, now),
    ensures
        first == second,
{
}

} // verus!
