use vstd::prelude::*;

use chrono::{Datelike, TimeZone};

use crate::text::{decimal, decimal_chars, push_text, string_from_chars};

verus! {

/// The timezone used when the local one cannot be detected.
pub const FALLBACK_TIMEZONE: &'static str = "Etc/UTC";

/// How the timezone of a day selection was chosen.
#[derive(Clone, Copy, Debug, PartialEq, Eq, Structural)]
pub enum TimezoneSource {
    Detected,
    Fallback,
    Explicit,
}

/// A calendar date of the proleptic Gregorian calendar.
#[derive(Clone, Copy, Debug, PartialEq, Eq, Structural)]
pub struct CalendarDate {
    pub year: i32,
    pub month: u32,
    pub day: u32,
}

/// The first and last year of the dates that can be selected.
pub const MIN_YEAR: i32 = -262143;

pub const MAX_YEAR: i32 = 262142;

/// Whether `year` has a 29 February.
pub open spec fn is_leap_year(year: int) -> bool {
    (year % 4 == 0 && year % 100 != 0) || year % 400 == 0
}

/// The number of days of `month` in `year`.
pub open spec fn days_in_month(year: int, month: int) -> int {
    if month == 2 {
        if is_leap_year(year) {
            29
        } else {
            28
        }
    } else if month == 4 || month == 6 || month == 9 || month == 11 {
        30
    } else {
        31
    }
}

/// A date that exists, in the range of years that can be selected.
pub open spec fn is_valid_date(date: CalendarDate) -> bool {
    &&& MIN_YEAR <= date.year <= MAX_YEAR
    &&& 1 <= date.month <= 12
    &&& 1 <= date.day <= days_in_month(date.year as int, date.month as int)
}

/// The day after `date`, if it is in range.
pub open spec fn day_after(date: CalendarDate) -> Option<CalendarDate> {
    if date.day < days_in_month(date.year as int, date.month as int) {
        Some(CalendarDate { day: (date.day + 1) as u32, ..date })
    } else if date.month < 12 {
        Some(CalendarDate { month: (date.month + 1) as u32, day: 1, ..date })
    } else if date.year < MAX_YEAR {
        Some(CalendarDate { year: (date.year + 1) as i32, month: 1, day: 1 })
    } else {
        None
    }
}

fn leap_year(year: i32) -> (leap: bool)
    ensures
        leap == is_leap_year(year as int),
{
    (year % 4 == 0 && year % 100 != 0) || year % 400 == 0
}

fn month_length(year: i32, month: u32) -> (days: u32)
    ensures
        days == days_in_month(year as int, month as int),
{
    if month == 2 {
        if leap_year(year) {
            29
        } else {
            28
        }
    } else if month == 4 || month == 6 || month == 9 || month == 11 {
        30
    } else {
        31
    }
}

impl CalendarDate {
    /// The date `year`-`month`-`day`, if it exists and is in range.
    pub fn new(year: i32, month: u32, day: u32) -> (date: Option<CalendarDate>)
        ensures
            match date {
                Some(date) => date == (CalendarDate { year, month, day }) && is_valid_date(date),
                None => !is_valid_date(CalendarDate { year, month, day }),
            },
    {
        if year < MIN_YEAR || year > MAX_YEAR || month < 1 || month > 12 || day < 1 || day
            > month_length(year, month) {
            return None;
        }
        Some(CalendarDate { year, month, day })
    }

    /// The day after this one, if it is in range.
    pub fn next(&self) -> (next: Option<CalendarDate>)
        requires
            is_valid_date(*self),
        ensures
            next == day_after(*self),
            next matches Some(date) ==> is_valid_date(date),
    {
        if self.day < month_length(self.year, self.month) {
            Some(CalendarDate { day: self.day + 1, ..*self })
        } else if self.month < 12 {
            Some(CalendarDate { month: self.month + 1, day: 1, ..*self })
        } else if self.year < MAX_YEAR {
            Some(CalendarDate { year: self.year + 1, month: 1, day: 1 })
        } else {
            None
        }
    }
}

/// `n` in decimal, with leading zeros up to `width` digits.
pub open spec fn padded(n: nat, width: nat) -> Seq<char> {
    if decimal(n).len() < width {
        Seq::new((width - decimal(n).len()) as nat, |i: int| '0') + decimal(n)
    } else {
        decimal(n)
    }
}

/// How a date is written: the year in four digits (with a sign outside 0 to 9999), then the
/// month and the day in two digits each, joined by hyphens.
pub open spec fn iso_date_text(date: CalendarDate) -> Seq<char> {
    let year = if 0 <= date.year <= 9999 {
        padded(date.year as nat, 4)
    } else if date.year < 0 {
        seq!['-'] + padded((-date.year) as nat, 4)
    } else {
        seq!['+'] + padded(date.year as nat, 4)
    };
    year + seq!['-'] + padded(date.month as nat, 2) + seq!['-'] + padded(date.day as nat, 2)
}

fn padded_text(n: u64, width: usize) -> (text: Vec<char>)
    ensures
        text@ == padded(n as nat, width as nat),
{
    let digits = decimal_chars(n);
    let mut text: Vec<char> = Vec::new();
    if digits.len() < width {
        let zeros = width - digits.len();
        let mut i: usize = 0;
        while i < zeros
            invariant
                i <= zeros,
                text@ == Seq::new(i as nat, |k: int| '0'),
            decreases zeros - i,
        {
            text.push('0');
            proof {
                assert(text@ =~= Seq::new((i + 1) as nat, |k: int| '0'));
            }
            i = i + 1;
        }
    }
    let mut i: usize = 0;
    let ghost prefix = text@;
    while i < digits.len()
        invariant
            i <= digits@.len(),
            text@ == prefix + digits@.take(i as int),
        decreases digits.len() - i,
    {
        text.push(digits[i]);
        proof {
            assert(digits@.take(i + 1) =~= digits@.take(i as int).push(digits@[i as int]));
        }
        i = i + 1;
    }
    proof {
        assert(digits@.take(i as int) =~= digits@);
        assert(text@ =~= padded(n as nat, width as nat));
    }
    text
}

/// See `iso_date_text`.
pub fn date_text(date: CalendarDate) -> (text: String)
    ensures
        text@ == iso_date_text(date),
{
    let mut chars: Vec<char> = Vec::new();
    if 0 <= date.year && date.year <= 9999 {
        chars.append(&mut padded_text(date.year as u64, 4));
    } else if date.year < 0 {
        chars.push('-');
        let magnitude = (0 - (date.year as i64)) as u64;
        chars.append(&mut padded_text(magnitude, 4));
    } else {
        chars.push('+');
        chars.append(&mut padded_text(date.year as u64, 4));
    }
    chars.push('-');
    chars.append(&mut padded_text(date.month as u64, 2));
    chars.push('-');
    chars.append(&mut padded_text(date.day as u64, 2));
    proof {
        assert(chars@ =~= iso_date_text(date));
    }
    string_from_chars(chars.as_slice())
}

/// A half-open interval of instants, each given in whole seconds since the Unix epoch (UTC).
#[derive(Clone, Copy, Debug, PartialEq, Eq, Structural)]
pub struct UtcInterval {
    pub start: i64,
    pub end: i64,
}

impl UtcInterval {
    /// Whether `instant` lies in `[start, end)`.
    pub fn contains(&self, instant: i64) -> (inside: bool)
        ensures
            inside == (self.start <= instant && instant < self.end),
    {
        self.start <= instant && instant < self.end
    }
}

/// Whether `name` is the name of an IANA timezone that `chrono_tz::Tz::from_str` knows.
pub uninterp spec fn is_timezone_name(name: Seq<char>) -> bool;

/// `chrono_tz::Tz::from_str` succeeds on exactly the names of its timezone table.
#[verifier::external_body]
fn timezone_exists(name: &str) -> (exists: bool)
    ensures
        exists == is_timezone_name(name@),
{
    name.parse::<chrono_tz::Tz>().is_ok()
}

/// `chrono_tz::Tz::Etc__UTC.name()`: "Etc/UTC", a name of the timezone table.
#[verifier::external_body]
fn utc_timezone_name() -> (name: &'static str)
    ensures
        name@ == FALLBACK_TIMEZONE@,
        is_timezone_name(name@),
{
    chrono_tz::Tz::Etc__UTC.name()
}

/// An IANA timezone, by its name.
#[derive(Debug, PartialEq, Eq)]
pub struct Timezone {
    name: String,
}

impl Timezone {
    #[verifier::type_invariant]
    spec fn known(self) -> bool {
        is_timezone_name(self.name@)
    }

    /// The timezone's IANA name.
    pub closed spec fn spec_name(&self) -> Seq<char> {
        self.name@
    }

    /// The timezone's IANA name.
    pub fn name(&self) -> (name: &str)
        ensures
            name@ == self.spec_name(),
            is_timezone_name(name@),
    {
        proof {
            use_type_invariant(self);
        }
        self.name.as_str()
    }
}

impl Clone for Timezone {
    fn clone(&self) -> (copy: Self)
        ensures
            copy.spec_name() == self.spec_name(),
    {
        proof {
            use_type_invariant(self);
        }
        Timezone { name: self.name.clone() }
    }
}

/// Why a day could not be selected.
#[derive(Clone, Debug, PartialEq, Eq)]
pub enum DaySelectionError {
    InvalidTimezone(String),
    InvalidDate(String),
    DateOutOfRange(CalendarDate),
    AmbiguousMidnight { date: CalendarDate, timezone: String },
    NonexistentMidnight { date: CalendarDate, timezone: String },
}

impl DaySelectionError {
    /// What went wrong, for a person.
    pub fn message(&self) -> (text: String)
        ensures
            text@ == day_error_text(*self),
    {
        let mut text = String::new();
        match self {
            DaySelectionError::InvalidTimezone(value) => {
                push_text(&mut text, "invalid IANA timezone: ");
                push_text(&mut text, value.as_str());
            },
            DaySelectionError::InvalidDate(value) => {
                push_text(&mut text, "invalid ISO date (expected YYYY-MM-DD): ");
                push_text(&mut text, value.as_str());
            },
            DaySelectionError::DateOutOfRange(date) => {
                push_text(&mut text, "cannot select the day after ");
                push_text(&mut text, date_text(*date).as_str());
            },
            DaySelectionError::AmbiguousMidnight { date, timezone } => {
                push_text(&mut text, "midnight on ");
                push_text(&mut text, date_text(*date).as_str());
                push_text(&mut text, " is ambiguous in ");
                push_text(&mut text, timezone.as_str());
            },
            DaySelectionError::NonexistentMidnight { date, timezone } => {
                push_text(&mut text, "midnight on ");
                push_text(&mut text, date_text(*date).as_str());
                push_text(&mut text, " does not exist in ");
                push_text(&mut text, timezone.as_str());
            },
        }
        text
    }
}

/// How a day-selection error reads.
pub open spec fn day_error_text(error: DaySelectionError) -> Seq<char> {
    match error {
        DaySelectionError::InvalidTimezone(value) => "invalid IANA timezone: "@ + value@,
        DaySelectionError::InvalidDate(value) => "invalid ISO date (expected YYYY-MM-DD): "@
            + value@,
        DaySelectionError::DateOutOfRange(date) => "cannot select the day after "@
            + iso_date_text(date),
        DaySelectionError::AmbiguousMidnight { date, timezone } => "midnight on "@
            + iso_date_text(date) + " is ambiguous in "@ + timezone@,
        DaySelectionError::NonexistentMidnight { date, timezone } => "midnight on "@
            + iso_date_text(date) + " does not exist in "@ + timezone@,
    }
}

/// The timezone named `value`.
pub fn parse_timezone(value: &str) -> (timezone: Result<Timezone, DaySelectionError>)
    ensures
        match timezone {
            Ok(timezone) => is_timezone_name(value@) && timezone.spec_name() == value@,
            Err(error) => !is_timezone_name(value@) && (error matches DaySelectionError::InvalidTimezone(
                text,
            ) && text@ == value@),
        },
{
    if timezone_exists(value) {
        Ok(Timezone { name: value.to_owned() })
    } else {
        Err(DaySelectionError::InvalidTimezone(value.to_owned()))
    }
}

/// What `chrono::NaiveDate::parse_from_str` with `"%F"` (`%Y-%m-%d`) reads from `text`.
pub uninterp spec fn parsed_iso_date(text: Seq<char>) -> Option<CalendarDate>;

/// `chrono::NaiveDate::parse_from_str(text, "%F")`, as year, month and day. A date it gives is a
/// `NaiveDate`, so it exists and is in chrono's range.
#[verifier::external_body]
fn parse_iso_date(text: &str) -> (date: Option<CalendarDate>)
    ensures
        date == parsed_iso_date(text@),
        date matches Some(date) ==> is_valid_date(date),
{
    match chrono::NaiveDate::parse_from_str(text, "%F") {
        Ok(date) => Some(CalendarDate { year: date.year(), month: date.month(), day: date.day() }),
        Err(_) => None,
    }
}

/// The date written as `value` (`YYYY-MM-DD`).
pub fn parse_date(value: &str) -> (date: Result<CalendarDate, DaySelectionError>)
    ensures
        match parsed_iso_date(value@) {
            Some(parsed) => date == Ok::<CalendarDate, DaySelectionError>(parsed),
            None => date matches Err(DaySelectionError::InvalidDate(text)) && text@ == value@,
        },
        date matches Ok(parsed) ==> is_valid_date(parsed),
{
    match parse_iso_date(value) {
        Some(date) => Ok(date),
        None => Err(DaySelectionError::InvalidDate(value.to_owned())),
    }
}

/// Where local midnight of a date falls.
#[derive(Clone, Copy, Debug, PartialEq, Eq, Structural)]
pub enum LocalMidnight {
    /// At this instant, in seconds since the Unix epoch.
    Single(i64),
    /// At two instants (the clocks went back over it).
    Ambiguous,
    /// Nowhere (the clocks skipped it).
    Nonexistent,
}

/// What `chrono::TimeZone::from_local_datetime` gives for midnight of `date` in the timezone
/// named `timezone`.
pub uninterp spec fn local_midnight(timezone: Seq<char>, date: CalendarDate) -> LocalMidnight;

/// `chrono::TimeZone::from_local_datetime` for midnight of `date` in the timezone named `name`
/// (a name of the table, so the lookup succeeds), its single instant as a Unix timestamp.
#[verifier::external_body]
fn midnight_of(name: &str, date: CalendarDate) -> (midnight: LocalMidnight)
    requires
        is_timezone_name(name@),
        is_valid_date(date),
    ensures
        midnight == local_midnight(name@, date),
{
    let zone: chrono_tz::Tz = name.parse().unwrap_or(chrono_tz::Tz::Etc__UTC);
    let local = chrono::NaiveDate::from_ymd_opt(date.year, date.month, date.day).unwrap_or_default().and_time(chrono::NaiveTime::MIN);
    match zone.from_local_datetime(&local) {
        chrono::LocalResult::Single(instant) => LocalMidnight::Single(instant.timestamp()),
        chrono::LocalResult::Ambiguous(_, _) => LocalMidnight::Ambiguous,
        chrono::LocalResult::None => LocalMidnight::Nonexistent,
    }
}

/// The local day that a live inbox covers.
#[derive(Clone, Debug, PartialEq, Eq)]
pub struct DaySelection {
    pub date: CalendarDate,
    pub timezone: Timezone,
    pub timezone_name: String,
    pub timezone_source: TimezoneSource,
    pub interval: UtcInterval,
}

/// What selecting `date` in `timezone` gives: the interval from its local midnight to the next
/// day's, each resolved on its own; an error where the next day is out of range or a midnight is
/// ambiguous or does not exist (the start is resolved first).
pub open spec fn selected_day(
    date: CalendarDate,
    timezone: Seq<char>,
    source: TimezoneSource,
) -> Result<(UtcInterval, TimezoneSource), DaySelectionErrorKind> {
    match day_after(date) {
        None => Err(DaySelectionErrorKind::DateOutOfRange),
        Some(next) => match local_midnight(timezone, date) {
            LocalMidnight::Ambiguous => Err(DaySelectionErrorKind::AmbiguousMidnight(date)),
            LocalMidnight::Nonexistent => Err(DaySelectionErrorKind::NonexistentMidnight(date)),
            LocalMidnight::Single(start) => match local_midnight(timezone, next) {
                LocalMidnight::Ambiguous => Err(DaySelectionErrorKind::AmbiguousMidnight(next)),
                LocalMidnight::Nonexistent => Err(DaySelectionErrorKind::NonexistentMidnight(next)),
                LocalMidnight::Single(end) => Ok((UtcInterval { start, end }, source)),
            },
        },
    }
}

/// The kind of a day-selection error and the date it concerns.
pub enum DaySelectionErrorKind {
    DateOutOfRange,
    AmbiguousMidnight(CalendarDate),
    NonexistentMidnight(CalendarDate),
}

/// Whether `error` is the error that `kind` describes for `date` in the timezone named `name`.
pub open spec fn error_is(error: DaySelectionError, kind: DaySelectionErrorKind, date: CalendarDate, name: Seq<char>) -> bool {
    match kind {
        DaySelectionErrorKind::DateOutOfRange => error == DaySelectionError::DateOutOfRange(date),
        DaySelectionErrorKind::AmbiguousMidnight(on) => error matches DaySelectionError::AmbiguousMidnight { date: d, timezone: t } && d == on && t@ == name,
        DaySelectionErrorKind::NonexistentMidnight(on) => error matches DaySelectionError::NonexistentMidnight { date: d, timezone: t } && d == on && t@ == name,
    }
}

fn resolve_midnight(date: CalendarDate, timezone: &Timezone) -> (instant: Result<i64, DaySelectionError>)
    requires
        is_valid_date(date),
    ensures
        match local_midnight(timezone.spec_name(), date) {
            LocalMidnight::Single(at) => instant == Ok::<i64, DaySelectionError>(at),
            LocalMidnight::Ambiguous => instant matches Err(DaySelectionError::AmbiguousMidnight { date: d, timezone: t }) && d == date && t@ == timezone.spec_name(),
            LocalMidnight::Nonexistent => instant matches Err(DaySelectionError::NonexistentMidnight { date: d, timezone: t }) && d == date && t@ == timezone.spec_name(),
        },
{
    let name = timezone.name();
    match midnight_of(name, date) {
        LocalMidnight::Single(at) => Ok(at),
        LocalMidnight::Ambiguous => Err(DaySelectionError::AmbiguousMidnight { date, timezone: name.to_owned() }),
        LocalMidnight::Nonexistent => Err(DaySelectionError::NonexistentMidnight { date, timezone: name.to_owned() }),
    }
}

/// The half-open UTC interval of `date` in `timezone`: from its local midnight to the next
/// day's (see `selected_day`).
pub fn select_day(date: CalendarDate, timezone: Timezone, timezone_source: TimezoneSource) -> (selection: Result<DaySelection, DaySelectionError>)
    requires
        is_valid_date(date),
    ensures
        match selected_day(date, timezone.spec_name(), timezone_source) {
            Ok((interval, source)) => selection matches Ok(chosen) && chosen.date == date
                && chosen.timezone == timezone && chosen.timezone_name@ == timezone.spec_name()
                && chosen.timezone_source == source && chosen.interval == interval,
            Err(kind) => selection matches Err(error) && error_is(error, kind, date, timezone.spec_name()),
        },
{
    let next = match date.next() {
        Some(next) => next,
        None => return Err(DaySelectionError::DateOutOfRange(date)),
    };
    let start = resolve_midnight(date, &timezone)?;
    let end = resolve_midnight(next, &timezone)?;
    let timezone_name = timezone.name().to_owned();
    Ok(DaySelection { date, timezone, timezone_name, timezone_source, interval: UtcInterval { start, end } })
}

/// Where the local timezone's name comes from.
pub trait LocalTimezoneDetector {
    /// The local timezone's IANA name, or why it could not be found.
    fn detect(&self) -> Result<String, String>;
}

/// `iana_time_zone::get_timezone`: the name of the operating system's timezone, or why it could
/// not be found. What it returns depends on the machine, so nothing is stated of it.
#[verifier::external_body]
fn operating_system_timezone() -> Result<String, String> {
    iana_time_zone::get_timezone().map_err(|error| error.to_string())
}

/// The local timezone as the operating system reports it.
pub struct SystemTimezoneDetector;

impl LocalTimezoneDetector for SystemTimezoneDetector {
    fn detect(&self) -> Result<String, String> {
        operating_system_timezone()
    }
}

/// The timezone from what detection found: a known name is used as detected; anything else
/// falls back to `Etc/UTC`.
pub fn timezone_from_detection(detected: Result<String, String>) -> (chosen: (Timezone, TimezoneSource))
    ensures
        match detected {
            Ok(name) if is_timezone_name(name@) => chosen.0.spec_name() == name@ && chosen.1 == TimezoneSource::Detected,
            _ => chosen.0.spec_name() == FALLBACK_TIMEZONE@ && chosen.1 == TimezoneSource::Fallback,
        },
{
    if let Ok(name) = detected {
        if let Ok(timezone) = parse_timezone(name.as_str()) {
            return (timezone, TimezoneSource::Detected);
        }
    }
    let name = utc_timezone_name();
    (Timezone { name: name.to_owned() }, TimezoneSource::Fallback)
}

/// The local timezone as `detector` finds it, or the `Etc/UTC` fallback.
pub fn detected_timezone<D: LocalTimezoneDetector>(detector: &D) -> (chosen: (Timezone, TimezoneSource))
    ensures
        chosen.1 == TimezoneSource::Detected || (chosen.1 == TimezoneSource::Fallback && chosen.0.spec_name() == FALLBACK_TIMEZONE@),
        is_timezone_name(chosen.0.spec_name()),
{
    let chosen = timezone_from_detection(detector.detect());
    proof {
        use_type_invariant(&chosen.0);
    }
    chosen
}

} // verus!
