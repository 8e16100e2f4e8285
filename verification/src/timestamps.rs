use vstd::prelude::*;
use chrono::Datelike;

verus! {

/// A calendar date as plain year, month and day numbers.
#[derive(Clone, Copy, PartialEq, Eq, Structural, Debug)]
pub struct SimpleDate {
    pub year: i32,
    pub month: u32,
    pub day: u32,
}

/// A second-resolution instant used to delimit a query window.
#[derive(Clone, Copy, PartialEq, Eq, Structural, Debug)]
pub struct Timestamp {
    pub year: i32,
    pub month: u32,
    pub day: u32,
    pub hour: u32,
    pub minute: u32,
    pub second: u32,
}

/// Why no query window could be produced for a requested year.
#[derive(Clone, Copy, PartialEq, Eq, Structural, Debug)]
pub enum YearError {
    /// The year lies outside 2008..=(last year).
    InvalidYear,
    /// The calendar step off today's date left chrono's range.
    UnrepresentableDate,
}

/// What moving a date back by `n` days yields on the calendar, as
/// (year, month, day); a function of its arguments alone, computed by
/// chrono.
pub uninterp spec fn date_back(year: int, month: int, day: int, n: int) -> (int, int, int);

/// Relies on chrono's `Utc::now` and the `Datelike` accessors: the current
/// UTC date.  The clock decides the value, so only calendar sanity holds of
/// every outcome.
#[verifier::external_body]
fn utc_today() -> (r: SimpleDate)
    ensures
        1 <= r.month <= 12,
        1 <= r.day <= 31,
{
    let now = chrono::Utc::now();
    SimpleDate { year: now.year(), month: now.month(), day: now.day() }
}

/// Relies on chrono's `NaiveDate::checked_sub_days` (with
/// `NaiveDate::from_ymd_opt` converting the plain arguments): steps a date
/// back by `n` days; `None` when the inputs form no date chrono accepts or
/// the result leaves its range.
#[verifier::external_body]
fn date_minus_days(d: SimpleDate, n: u64) -> (r: Option<SimpleDate>)
    ensures
        (r matches Some(s) ==> {
            &&& (s.year as int, s.month as int, s.day as int) == date_back(
                d.year as int,
                d.month as int,
                d.day as int,
                n as int,
            )
            &&& 1 <= s.month <= 12
            &&& 1 <= s.day <= 31
        }),
{
    match chrono::NaiveDate::from_ymd_opt(d.year, d.month, d.day) {
        None => None,
        Some(nd) => match nd.checked_sub_days(chrono::Days::new(n)) {
            None => None,
            Some(b) => Some(SimpleDate { year: b.year(), month: b.month(), day: b.day() }),
        },
    }
}

/// Midnight at the start of the given date.
pub open spec fn midnight(d: SimpleDate) -> Timestamp {
    Timestamp { year: d.year, month: d.month, day: d.day, hour: 0, minute: 0, second: 0 }
}

/// The first instant of the given year.
pub open spec fn start_of_year(year: u32) -> Timestamp {
    Timestamp { year: year as i32, month: 1, day: 1, hour: 0, minute: 0, second: 0 }
}

/// The last instant a year's query window covers: the year's last day at
/// 11:59:59.
pub open spec fn end_of_year(year: u32) -> Timestamp {
    Timestamp { year: year as i32, month: 12, day: 31, hour: 11, minute: 59, second: 59 }
}

/// Decides the query window for a requested year, given today's date and
/// the date one year before it: year 0 selects the trailing year ending
/// today; any other year must lie in 2008..(today's year) and selects that
/// year's span.
pub fn year_window_at(year: u32, today: SimpleDate, year_back: SimpleDate) -> (r: Result<
    (Timestamp, Timestamp),
    YearError,
>)
    requires
        year <= 0x7fff_ffff,
    ensures
        year == 0 ==> r == Ok::<(Timestamp, Timestamp), YearError>(
            (midnight(year_back), midnight(today)),
        ),
        year != 0 && (year < 2008 || year >= today.year) ==> r == Err::<
            (Timestamp, Timestamp),
            YearError,
        >(YearError::InvalidYear),
        year != 0 && 2008 <= year < today.year ==> r == Ok::<(Timestamp, Timestamp), YearError>(
            (start_of_year(year), end_of_year(year)),
        ),
{
    if year == 0 {
        Ok((
            Timestamp {
                year: year_back.year,
                month: year_back.month,
                day: year_back.day,
                hour: 0,
                minute: 0,
                second: 0,
            },
            Timestamp {
                year: today.year,
                month: today.month,
                day: today.day,
                hour: 0,
                minute: 0,
                second: 0,
            },
        ))
    } else if year < 2008 || today.year <= 0 || year >= today.year as u32 {
        Err(YearError::InvalidYear)
    } else {
        Ok((
            Timestamp { year: year as i32, month: 1, day: 1, hour: 0, minute: 0, second: 0 },
            Timestamp { year: year as i32, month: 12, day: 31, hour: 11, minute: 59, second: 59 },
        ))
    }
}

/// Computes the query window against the real clock: the requested year's
/// span, or the trailing year ending today when `year` is zero.  The exact
/// decision, for any clock reading, is `year_window_at`.
pub fn year_window(year: u32) -> (r: Result<(Timestamp, Timestamp), YearError>)
    requires
        year <= 0x7fff_ffff,
    ensures
        year != 0 && year < 2008 ==> r == Err::<(Timestamp, Timestamp), YearError>(
            YearError::InvalidYear,
        ),
        year != 0 ==> (r matches Ok(w) ==> w == (start_of_year(year), end_of_year(year))),
{
    let today = utc_today();
    if year == 0 {
        match date_minus_days(today, 365) {
            None => Err(YearError::UnrepresentableDate),
            Some(back) => year_window_at(0, today, back),
        }
    } else {
        year_window_at(year, today, today)
    }
}

} // verus!
