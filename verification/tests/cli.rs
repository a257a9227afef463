use reviewbox::cli::{parse_with, Argument, Command, ParseError, USAGE};
use reviewbox::day::{date_text, DaySelectionError, LocalTimezoneDetector, TimezoneSource};

struct Detector(Result<String, String>);

impl LocalTimezoneDetector for Detector {
    fn detect(&self) -> Result<String, String> {
        self.0.clone()
    }
}

/// 2024-01-15T23:30:00Z.
fn now() -> i64 {
    1_705_361_400
}

fn parse_at(arguments: &[&str], detector: Detector) -> Result<Command, ParseError> {
    parse_with(
        arguments
            .iter()
            .map(|argument| Argument::Text((*argument).to_owned()))
            .collect(),
        &detector,
        now(),
    )
}

#[test]
fn default_mode_is_live_today_in_detected_timezone() {
    let command = parse_at(&[], Detector(Ok("Europe/Warsaw".to_owned()))).unwrap();
    let Command::Live(selection) = command else {
        panic!("expected live mode")
    };
    assert_eq!(date_text(selection.date), "2024-01-16");
    assert_eq!(selection.timezone_name, "Europe/Warsaw");
    assert_eq!(selection.timezone_source, TimezoneSource::Detected);
}

#[test]
fn fallback_timezone_is_deterministic_when_detection_fails() {
    let command = parse_at(&[], Detector(Err("unavailable".to_owned()))).unwrap();
    let Command::Live(selection) = command else {
        panic!("expected live mode")
    };
    assert_eq!(date_text(selection.date), "2024-01-15");
    assert_eq!(selection.timezone_name, "Etc/UTC");
    assert_eq!(selection.timezone_source, TimezoneSource::Fallback);
}

#[test]
fn explicit_date_and_timezone_override_independently() {
    let command = parse_at(
        &["--date", "2024-03-10"],
        Detector(Ok("America/New_York".to_owned())),
    )
    .unwrap();
    let Command::Live(selection) = command else {
        panic!("expected live mode")
    };
    assert_eq!(date_text(selection.date), "2024-03-10");
    assert_eq!(selection.timezone_name, "America/New_York");
    assert_eq!(selection.timezone_source, TimezoneSource::Detected);

    let command = parse_at(
        &["--timezone", "America/New_York"],
        Detector(Ok("Europe/Warsaw".to_owned())),
    )
    .unwrap();
    let Command::Live(selection) = command else {
        panic!("expected live mode")
    };
    assert_eq!(date_text(selection.date), "2024-01-15");
    assert_eq!(selection.timezone_name, "America/New_York");
    assert_eq!(selection.timezone_source, TimezoneSource::Explicit);
}

#[test]
fn demo_modes_remain_explicit_and_reject_live_options() {
    assert_eq!(
        parse_at(&["--demo"], Detector(Err("unused".to_owned()))),
        Ok(Command::Demo)
    );
    assert_eq!(
        parse_at(&["--demo-smoke"], Detector(Err("unused".to_owned()))),
        Ok(Command::DemoSmoke)
    );
    assert!(matches!(
        parse_at(
            &["--demo", "--date", "2024-01-15"],
            Detector(Ok("Etc/UTC".to_owned()))
        ),
        Err(ParseError::IncompatibleOption { .. })
    ));
    assert!(matches!(
        parse_at(
            &["--demo", "--demo-smoke"],
            Detector(Ok("Etc/UTC".to_owned()))
        ),
        Err(ParseError::UnexpectedArgument(_))
    ));
}

#[test]
fn rejects_invalid_and_incomplete_arguments() {
    assert!(matches!(
        parse_at(
            &["--date", "2024-02-30"],
            Detector(Ok("Etc/UTC".to_owned()))
        ),
        Err(ParseError::Day(DaySelectionError::InvalidDate(_)))
    ));
    assert!(matches!(
        parse_at(
            &["--timezone", "Mars/Olympus"],
            Detector(Ok("Etc/UTC".to_owned()))
        ),
        Err(ParseError::Day(DaySelectionError::InvalidTimezone(_)))
    ));
    assert_eq!(
        parse_at(&["--date"], Detector(Ok("Etc/UTC".to_owned()))),
        Err(ParseError::MissingValue("--date"))
    );
}

#[test]
fn help_and_duplicates_are_reported_by_name() {
    assert_eq!(parse_at(&["-h"], Detector(Err("unused".to_owned()))), Ok(Command::Help));
    assert_eq!(
        parse_at(&["--help", "-h"], Detector(Err("unused".to_owned()))),
        Err(ParseError::UnexpectedArgument("--help".to_owned()))
    );
    let error = parse_at(
        &["--timezone", "Etc/UTC", "--timezone", "Etc/UTC"],
        Detector(Err("unused".to_owned())),
    )
    .unwrap_err();
    assert_eq!(error, ParseError::DuplicateOption("--timezone"));
    assert_eq!(error.message(), "--timezone may only be provided once");
    let error = parse_at(&["--help", "--timezone", "Etc/UTC"], Detector(Err("unused".to_owned())))
        .unwrap_err();
    assert_eq!(
        error,
        ParseError::IncompatibleOption {
            mode: "--help",
            option: "--timezone"
        }
    );
    assert_eq!(error.message(), "--timezone cannot be used with --help");
    assert_eq!(
        parse_at(&["--verbose"], Detector(Err("unused".to_owned())))
            .unwrap_err()
            .message(),
        "unexpected argument: --verbose"
    );
    let refused = parse_with(
        vec![Argument::NotUnicode("\u{fffd}".to_owned())],
        &Detector(Err("unused".to_owned())),
        now(),
    );
    assert_eq!(refused, Err(ParseError::UnexpectedArgument("\u{fffd}".to_owned())));
    assert!(USAGE.starts_with("ReviewBox daily GitHub inbox\n"));
}
