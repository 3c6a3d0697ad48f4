//! Instants and calendar dates of the zone Australia/NSW, as the time
//! zone database that chrono-tz carries relates them.

use chrono::{DateTime, Datelike, LocalResult, TimeZone};
use chrono_tz::Australia;
use vstd::prelude::*;

verus! {

/// An instant, read in the zone: the seconds from 1970-01-01T00:00:00Z
/// to it. Dates are ordered as their instants are.
#[derive(Clone, Copy, Debug, PartialEq, Eq, Structural, PartialOrd, Ord, Hash)]
pub struct CivilDate {
    pub timestamp: i64,
}

/// The instants at which the zone shows midnight of a date.
#[derive(Clone, Copy, Debug, PartialEq, Eq, Structural)]
pub enum LocalMidnight {
    /// Midnight falls on one instant.
    Unique(CivilDate),
    /// The clocks were set back over midnight: the earlier and the
    /// later instant.
    Fold(CivilDate, CivilDate),
    /// The clocks were set forward over midnight, or there is no such
    /// date.
    Gap,
}

/// The instants at which the zone shows 00:00:00 of year, month, day.
pub uninterp spec fn nsw_midnight(year: int, month: int, day: int) -> LocalMidnight;

/// Year, month and day that the zone shows at an instant, where the
/// instant can be counted.
pub uninterp spec fn nsw_date(instant: int) -> Option<(int, int, int)>;

/// Calls `chrono::TimeZone::with_ymd_and_hms` on
/// `chrono_tz::Australia::NSW` with hour, minute and second 0, and
/// `DateTime::timestamp` on each instant that comes back.
///
/// Believed of chrono: the call returns for every argument, and what
/// it returns depends on the arguments alone; the one instant that it
/// may name shows, read in the zone again, the date that was asked
/// for.
#[verifier::external_body]
pub(crate) fn local_midnight(year: i32, month: u32, day: u32) -> (found: LocalMidnight)
    ensures
        found == nsw_midnight(year as int, month as int, day as int),
        found matches LocalMidnight::Unique(date) ==> nsw_date(date.timestamp as int) == Some(
            (year as int, month as int, day as int),
        ),
{
    match Australia::NSW.with_ymd_and_hms(year, month, day, 0, 0, 0) {
        LocalResult::Single(t) => LocalMidnight::Unique(CivilDate { timestamp: t.timestamp() }),
        LocalResult::Ambiguous(a, b) => LocalMidnight::Fold(
            CivilDate { timestamp: a.timestamp() },
            CivilDate { timestamp: b.timestamp() },
        ),
        LocalResult::None => LocalMidnight::Gap,
    }
}

/// Makes the instant with `chrono::DateTime::from_timestamp`, moves it
/// to `chrono_tz::Australia::NSW` with `DateTime::with_timezone` and
/// reads `Datelike::year`, `month` and `day` from it.
///
/// Believed of chrono: the calls return for every instant, with
/// nothing where chrono cannot count the instant, and what they
/// return depends on the instant alone.
#[verifier::external_body]
pub(crate) fn local_date(instant: i64) -> (date: Option<(i32, u32, u32)>)
    ensures
        match date {
            Some((year, month, day)) => nsw_date(instant as int) == Some(
                (year as int, month as int, day as int),
            ),
            None => nsw_date(instant as int) is None,
        },
{
    let shown = DateTime::from_timestamp(instant, 0)?.with_timezone(&Australia::NSW);
    Some((shown.year(), shown.month(), shown.day()))
}

} // verus!
