use vstd::prelude::*;

use chrono::Datelike;

use crate::day::{
    detected_timezone, is_timezone_name, timezone_from_detection, is_valid_date, parse_date, parse_timezone,
    parsed_iso_date, select_day, CalendarDate, DaySelection, DaySelectionError,
    LocalTimezoneDetector, Timezone, TimezoneSource,
};
use crate::text::chars_of;

verus! {

/// The help text.
pub const USAGE: &'static str = "ReviewBox daily GitHub inbox\n\nUsage:\n  reviewbox [--date YYYY-MM-DD] [--timezone IANA_NAME]\n  reviewbox --demo\n  reviewbox --demo-smoke\n  reviewbox --help\n\nOptions:\n  --date DATE        Select an ISO calendar date for the live inbox\n  --timezone ZONE     Select an IANA timezone for the live inbox\n  --demo              Run the fictional, offline terminal demo\n  --demo-smoke        Verify the demo noninteractively with an in-memory terminal\n  -h, --help          Show this help\n\nWithout a mode, ReviewBox starts the live inbox for today in the detected local timezone. If local timezone detection is unavailable, it uses Etc/UTC.\n";

/// One command-line argument as the process received it.
#[derive(Clone, Debug, PartialEq, Eq)]
pub enum Argument {
    Text(String),
    /// An argument that is not valid Unicode, shown with replacement characters.
    NotUnicode(String),
}

/// What the program is asked to do.
#[derive(Clone, Debug, PartialEq, Eq)]
pub enum Command {
    Live(DaySelection),
    Demo,
    DemoSmoke,
    Help,
}

/// Why the arguments were refused.
#[derive(Debug, PartialEq, Eq)]
pub enum ParseError {
    UnexpectedArgument(String),
    MissingValue(&'static str),
    DuplicateOption(&'static str),
    IncompatibleOption { mode: &'static str, option: &'static str },
    Day(DaySelectionError),
}

/// A mode chosen on the command line.
#[derive(Clone, Copy, Debug, PartialEq, Eq, Structural)]
pub enum CliMode {
    Demo,
    DemoSmoke,
    Help,
}

/// The name under which a mode is reported.
pub open spec fn mode_name(mode: CliMode) -> Seq<char> {
    match mode {
        CliMode::Demo => "--demo"@,
        CliMode::DemoSmoke => "--demo-smoke"@,
        CliMode::Help => "--help"@,
    }
}

/// What the arguments chose so far.
pub struct Choices {
    pub mode: Option<CliMode>,
    pub date: Option<CalendarDate>,
    pub timezone: Option<Seq<char>>,
}

/// Why scanning the arguments stopped.
pub enum ScanError {
    Unexpected(Seq<char>),
    Missing(Seq<char>),
    Duplicate(Seq<char>),
    Date(Seq<char>),
    Timezone(Seq<char>),
}

/// The text of an argument if it is Unicode.
pub open spec fn argument_text(argument: Argument) -> Option<Seq<char>> {
    match argument {
        Argument::Text(text) => Some(text@),
        Argument::NotUnicode(_) => None,
    }
}

/// How an argument is shown in an error.
pub open spec fn argument_shown(argument: Argument) -> Seq<char> {
    match argument {
        Argument::Text(text) => text@,
        Argument::NotUnicode(shown) => shown@,
    }
}

/// The mode that an argument selects, if it is a mode switch.
pub open spec fn mode_switch(text: Seq<char>) -> Option<CliMode> {
    if text == "--demo"@ {
        Some(CliMode::Demo)
    } else if text == "--demo-smoke"@ {
        Some(CliMode::DemoSmoke)
    } else if text == "--help"@ || text == "-h"@ {
        Some(CliMode::Help)
    } else {
        None
    }
}

/// Reads the arguments from `at` on, left to right: a mode switch may come once, `--date` and
/// `--timezone` once each and take the next argument as their value; anything else is
/// unexpected.
pub open spec fn scan(arguments: Seq<Argument>, at: int, choices: Choices) -> Result<Choices, ScanError>
    decreases arguments.len() - at,
{
    if at < 0 || at >= arguments.len() {
        Ok(choices)
    } else {
        match argument_text(arguments[at]) {
            None => Err(ScanError::Unexpected(argument_shown(arguments[at]))),
            Some(text) => match mode_switch(text) {
                Some(mode) => if choices.mode is Some {
                    Err(ScanError::Unexpected(mode_name(mode)))
                } else {
                    scan(arguments, at + 1, Choices { mode: Some(mode), ..choices })
                },
                None => if text == "--date"@ {
                    if choices.date is Some {
                        Err(ScanError::Duplicate("--date"@))
                    } else if at + 1 >= arguments.len() {
                        Err(ScanError::Missing("--date"@))
                    } else {
                        match argument_text(arguments[at + 1]) {
                            None => Err(ScanError::Unexpected(argument_shown(arguments[at + 1]))),
                            Some(value) => match parsed_iso_date(value) {
                                None => Err(ScanError::Date(value)),
                                Some(date) => scan(arguments, at + 2, Choices { date: Some(date), ..choices }),
                            },
                        }
                    }
                } else if text == "--timezone"@ {
                    if choices.timezone is Some {
                        Err(ScanError::Duplicate("--timezone"@))
                    } else if at + 1 >= arguments.len() {
                        Err(ScanError::Missing("--timezone"@))
                    } else {
                        match argument_text(arguments[at + 1]) {
                            None => Err(ScanError::Unexpected(argument_shown(arguments[at + 1]))),
                            Some(value) => if is_timezone_name(value) {
                                scan(arguments, at + 2, Choices { timezone: Some(value), ..choices })
                            } else {
                                Err(ScanError::Timezone(value))
                            },
                        }
                    }
                } else {
                    Err(ScanError::Unexpected(text))
                },
            },
        }
    }
}

/// Nothing chosen yet.
pub open spec fn no_choices() -> Choices {
    Choices { mode: None, date: None, timezone: None }
}

/// Whether `error` is the refusal that `scanned` describes.
pub open spec fn refusal_is(error: ParseError, scanned: ScanError) -> bool {
    match scanned {
        ScanError::Unexpected(text) => error matches ParseError::UnexpectedArgument(shown) && shown@ == text,
        ScanError::Missing(option) => error matches ParseError::MissingValue(name) && name@ == option,
        ScanError::Duplicate(option) => error matches ParseError::DuplicateOption(name) && name@ == option,
        ScanError::Date(value) => error matches ParseError::Day(DaySelectionError::InvalidDate(text)) && text@ == value,
        ScanError::Timezone(value) => error matches ParseError::Day(DaySelectionError::InvalidTimezone(text)) && text@ == value,
    }
}

fn same_text(a: &str, b: &str) -> (same: bool)
    ensures
        same == (a@ == b@),
{
    let left = chars_of(a);
    let right = chars_of(b);
    if left.len() != right.len() {
        return false;
    }
    let mut i: usize = 0;
    while i < left.len()
        invariant
            left@ == a@,
            right@ == b@,
            left@.len() == right@.len(),
            i <= left@.len(),
            forall|k: int| 0 <= k < i ==> left@[k] == right@[k],
        decreases left.len() - i,
    {
        if left[i] != right[i] {
            return false;
        }
        i = i + 1;
    }
    assert(left@ =~= right@);
    true
}

/// The mode that `text` switches to, if it is a mode switch.
fn mode_of(text: &str) -> (mode: Option<CliMode>)
    ensures
        mode == mode_switch(text@),
{
    if same_text(text, "--demo") {
        Some(CliMode::Demo)
    } else if same_text(text, "--demo-smoke") {
        Some(CliMode::DemoSmoke)
    } else if same_text(text, "--help") || same_text(text, "-h") {
        Some(CliMode::Help)
    } else {
        None
    }
}

fn mode_label(mode: CliMode) -> (name: &'static str)
    ensures
        name@ == mode_name(mode),
{
    match mode {
        CliMode::Demo => "--demo",
        CliMode::DemoSmoke => "--demo-smoke",
        CliMode::Help => "--help",
    }
}

fn shown(argument: &Argument) -> (text: String)
    ensures
        text@ == argument_shown(*argument),
{
    match argument {
        Argument::Text(text) => text.clone(),
        Argument::NotUnicode(text) => text.clone(),
    }
}

/// What the arguments chose: a mode, a date, a timezone (each at most once).
pub struct ScannedArguments {
    pub mode: Option<CliMode>,
    pub date: Option<CalendarDate>,
    pub timezone: Option<Timezone>,
}

/// Reads the arguments (see `scan`).
pub fn scan_arguments(arguments: &Vec<Argument>) -> (scanned: Result<ScannedArguments, ParseError>)
    ensures
        match scan(arguments@, 0, no_choices()) {
            Ok(choices) => scanned matches Ok(found) && found.mode == choices.mode && found.date == choices.date
                && (found.timezone matches Some(zone) ==> choices.timezone == Some(zone.spec_name()))
                && (found.timezone is None ==> choices.timezone is None)
                && (found.date matches Some(date) ==> is_valid_date(date)),
            Err(error) => scanned matches Err(refused) && refusal_is(refused, error),
        },
{
    let mut mode: Option<CliMode> = None;
    let mut date: Option<CalendarDate> = None;
    let mut timezone: Option<Timezone> = None;
    let mut at: usize = 0;
    while at < arguments.len()
        invariant
            at <= arguments@.len(),
            scan(arguments@, 0, no_choices()) == scan(
                arguments@,
                at as int,
                Choices {
                    mode,
                    date,
                    timezone: match timezone {
                        Some(zone) => Some(zone.spec_name()),
                        None => None,
                    },
                },
            ),
            date matches Some(chosen) ==> is_valid_date(chosen),
        decreases arguments.len() - at,
    {
        let text = match &arguments[at] {
            Argument::NotUnicode(lossy) => return Err(ParseError::UnexpectedArgument(lossy.clone())),
            Argument::Text(text) => text,
        };
        match mode_of(text.as_str()) {
            Some(switch) => {
                if mode.is_some() {
                    return Err(ParseError::UnexpectedArgument(mode_label(switch).to_owned()));
                }
                mode = Some(switch);
                at = at + 1;
            },
            None => {
                if same_text(text.as_str(), "--date") {
                    if date.is_some() {
                        return Err(ParseError::DuplicateOption("--date"));
                    }
                    if at + 1 >= arguments.len() {
                        return Err(ParseError::MissingValue("--date"));
                    }
                    let value = match &arguments[at + 1] {
                        Argument::NotUnicode(lossy) => return Err(ParseError::UnexpectedArgument(lossy.clone())),
                        Argument::Text(value) => value,
                    };
                    match parse_date(value.as_str()) {
                        Ok(parsed) => date = Some(parsed),
                        Err(error) => return Err(ParseError::Day(error)),
                    }
                    at = at + 2;
                } else if same_text(text.as_str(), "--timezone") {
                    if timezone.is_some() {
                        return Err(ParseError::DuplicateOption("--timezone"));
                    }
                    if at + 1 >= arguments.len() {
                        return Err(ParseError::MissingValue("--timezone"));
                    }
                    let value = match &arguments[at + 1] {
                        Argument::NotUnicode(lossy) => return Err(ParseError::UnexpectedArgument(lossy.clone())),
                        Argument::Text(value) => value,
                    };
                    match parse_timezone(value.as_str()) {
                        Ok(parsed) => timezone = Some(parsed),
                        Err(error) => return Err(ParseError::Day(error)),
                    }
                    at = at + 2;
                } else {
                    return Err(ParseError::UnexpectedArgument(text.clone()));
                }
            },
        }
    }
    Ok(ScannedArguments { mode, date, timezone })
}

/// The local date, in the timezone named `timezone`, of the instant `instant` (seconds since the
/// Unix epoch).
pub uninterp spec fn local_date_of(timezone: Seq<char>, instant: i64) -> CalendarDate;

/// The instants whose local date exists in every timezone: chrono's range of UTC instants,
/// -262143-01-01T00:00:00 to 262142-12-31T23:59:59, less one day at each end, which no
/// timezone's offset reaches past.
pub open spec fn is_supported_instant(instant: i64) -> bool {
    -8_334_601_228_800 <= instant <= 8_210_266_790_399
}

/// `DateTime::<Utc>::from_timestamp(instant, 0)`, moved into the timezone named `name` with
/// `with_timezone`, and its `date_naive()`. A `NaiveDate` exists and is in chrono's range.
#[verifier::external_body]
fn local_date(name: &str, instant: i64) -> (date: CalendarDate)
    requires
        is_timezone_name(name@),
        is_supported_instant(instant),
    ensures
        date == local_date_of(name@, instant),
        is_valid_date(date),
{
    let zone: chrono_tz::Tz = name.parse().unwrap_or(chrono_tz::Tz::Etc__UTC);
    let local = chrono::DateTime::from_timestamp(instant, 0).unwrap_or_default().with_timezone(&zone).date_naive();
    CalendarDate { year: local.year(), month: local.month(), day: local.day() }
}

/// What the command line gives for a mode, date and timezone name as chosen on it, with
/// `detected_zone` found by `detected_source` where no timezone was chosen, at the instant `now`:
/// a demo or help mode refuses a date or timezone (the date is named first); without a mode, the
/// live inbox for the chosen date (else today where `now` falls) in the chosen timezone.
pub open spec fn command_meets(
    mode: Option<CliMode>,
    date_choice: Option<CalendarDate>,
    zone_choice: Option<Seq<char>>,
    detected_zone: Seq<char>,
    detected_source: TimezoneSource,
    now: i64,
    command: Result<Command, ParseError>,
) -> bool {
        match mode {
        Some(mode) => if date_choice is Some {
            command matches Err(ParseError::IncompatibleOption { mode: name, option }) && name@ == mode_name(mode) && option@ == "--date"@
        } else if zone_choice is Some {
            command matches Err(ParseError::IncompatibleOption { mode: name, option }) && name@ == mode_name(mode) && option@ == "--timezone"@
        } else {
            command == match mode {
                CliMode::Demo => Ok::<Command, ParseError>(Command::Demo),
                CliMode::DemoSmoke => Ok::<Command, ParseError>(Command::DemoSmoke),
                CliMode::Help => Ok::<Command, ParseError>(Command::Help),
            }
        },
        None => {
            let zone = match zone_choice {
                Some(zone) => zone,
                None => detected_zone,
            };
            let source = match zone_choice {
                Some(_) => TimezoneSource::Explicit,
                None => detected_source,
            };
            let date = match date_choice {
                Some(date) => date,
                None => local_date_of(zone, now),
            };
            match crate::day::selected_day(date, zone, source) {
                Ok((interval, chosen_source)) => command matches Ok(Command::Live(selection))
                    && selection.date == date && selection.timezone.spec_name() == zone
                    && selection.timezone_name@ == zone && selection.timezone_source == chosen_source
                    && selection.interval == interval,
                Err(kind) => command matches Err(ParseError::Day(error)) && crate::day::error_is(error, kind, date, zone),
            }
        },
    }
}

/// What the scanned arguments ask for: a demo or help mode refuses a date or timezone
/// (the date is named first); without a mode, the live inbox for the chosen date (else today
/// where `now` falls) in the chosen timezone (else `detected`).
pub fn command_for(
    scanned: ScannedArguments,
    detected: (Timezone, TimezoneSource),
    now: i64,
) -> (command: Result<Command, ParseError>)
    requires
        is_supported_instant(now),
        scanned.date matches Some(date) ==> is_valid_date(date),
    ensures
        command_meets(
            scanned.mode,
            scanned.date,
            match scanned.timezone {
                Some(zone) => Some(zone.spec_name()),
                None => None,
            },
            detected.0.spec_name(),
            detected.1,
            now,
            command,
        ),
{
    match scanned.mode {
        Some(mode) => {
            let name = mode_label(mode);
            if scanned.date.is_some() {
                return Err(ParseError::IncompatibleOption { mode: name, option: "--date" });
            }
            if scanned.timezone.is_some() {
                return Err(ParseError::IncompatibleOption { mode: name, option: "--timezone" });
            }
            match mode {
                CliMode::Demo => Ok(Command::Demo),
                CliMode::DemoSmoke => Ok(Command::DemoSmoke),
                CliMode::Help => Ok(Command::Help),
            }
        },
        None => {
            let (timezone, source) = match scanned.timezone {
                Some(timezone) => (timezone, TimezoneSource::Explicit),
                None => detected,
            };
            let date = match scanned.date {
                Some(date) => date,
                None => local_date(timezone.name(), now),
            };
            match select_day(date, timezone, source) {
                Ok(selection) => Ok(Command::Live(selection)),
                Err(error) => Err(ParseError::Day(error)),
            }
        },
    }
}

/// What the command line asks for, with the local timezone from `detector` (asked only where no
/// mode is given) and the current instant `now` (see `scan_arguments` and `command_for`).
pub fn parse_with<D: LocalTimezoneDetector>(arguments: Vec<Argument>, detector: &D, now: i64) -> (command:
    Result<Command, ParseError>)
    requires
        is_supported_instant(now),
    ensures
        scan(arguments@, 0, no_choices()) matches Err(error) ==> command matches Err(refused) && refusal_is(refused, error),
        scan(arguments@, 0, no_choices()) matches Ok(choices) ==> exists|zone: Seq<char>, source: TimezoneSource|
            ((source == TimezoneSource::Detected && is_timezone_name(zone))
                || (source == TimezoneSource::Fallback && zone == crate::day::FALLBACK_TIMEZONE@))
            && #[trigger] command_meets(choices.mode, choices.date, choices.timezone, zone, source, now, command),
{
    let scanned = scan_arguments(&arguments)?;
    let detected = if scanned.mode.is_none() {
        detected_timezone(detector)
    } else {
        timezone_from_detection(Err(String::new()))
    };
    let command = command_for(scanned, detected, now);
    proof {
        let choices = scan(arguments@, 0, no_choices())->Ok_0;
        assert(choices.timezone == match scanned.timezone {
            Some(zone) => Some(zone.spec_name()),
            None => None::<Seq<char>>,
        });
        assert(command_meets(choices.mode, choices.date, choices.timezone, detected.0.spec_name(), detected.1, now, command));
    }
    command
}

impl ParseError {
    /// What went wrong, for a person.
    pub fn message(&self) -> (text: String)
        ensures
            text@ == match self {
                ParseError::UnexpectedArgument(argument) => "unexpected argument: "@ + argument@,
                ParseError::MissingValue(option) => "missing value for "@ + option@,
                ParseError::DuplicateOption(option) => option@ + " may only be provided once"@,
                ParseError::IncompatibleOption { mode, option } => option@ + " cannot be used with "@ + mode@,
                ParseError::Day(error) => crate::day::day_error_text(*error),
            },
    {
        let mut text = String::new();
        match self {
            ParseError::UnexpectedArgument(argument) => {
                crate::text::push_text(&mut text, "unexpected argument: ");
                crate::text::push_text(&mut text, argument.as_str());
            },
            ParseError::MissingValue(option) => {
                crate::text::push_text(&mut text, "missing value for ");
                crate::text::push_text(&mut text, option);
            },
            ParseError::DuplicateOption(option) => {
                crate::text::push_text(&mut text, option);
                crate::text::push_text(&mut text, " may only be provided once");
            },
            ParseError::IncompatibleOption { mode, option } => {
                crate::text::push_text(&mut text, option);
                crate::text::push_text(&mut text, " cannot be used with ");
                crate::text::push_text(&mut text, mode);
            },
            ParseError::Day(error) => {
                text = error.message();
            },
        }
        text
    }
}

} // verus!
