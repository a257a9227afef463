use reviewbox::day::{
    date_text, detected_timezone, parse_date, parse_timezone, select_day, timezone_from_detection,
    CalendarDate, DaySelectionError, LocalTimezoneDetector, TimezoneSource, UtcInterval,
};

const HOUR: i64 = 3600;

fn timestamp(year: i32, month: u32, day: u32, hour: u32) -> i64 {
    let date = CalendarDate::new(year, month, day).unwrap();
    let mut days: i64 = 0;
    let mut cursor = CalendarDate::new(1970, 1, 1).unwrap();
    while cursor != date {
        cursor = cursor.next().unwrap();
        days += 1;
    }
    days * 24 * HOUR + i64::from(hour) * HOUR
}

#[test]
fn converts_a_normal_local_day_to_a_half_open_utc_interval() {
    let selection = select_day(
        parse_date("2024-01-15").unwrap(),
        parse_timezone("Europe/Warsaw").unwrap(),
        TimezoneSource::Explicit,
    )
    .unwrap();
    assert_eq!(selection.interval.start, timestamp(2024, 1, 14, 23));
    assert_eq!(selection.interval.end, timestamp(2024, 1, 15, 23));
    assert!(selection.interval.contains(selection.interval.start));
    assert!(!selection.interval.contains(selection.interval.end));
}

#[test]
fn spring_forward_day_is_twenty_three_hours() {
    let selection = select_day(
        parse_date("2024-03-10").unwrap(),
        parse_timezone("America/New_York").unwrap(),
        TimezoneSource::Explicit,
    )
    .unwrap();
    assert_eq!(selection.interval.end - selection.interval.start, 23 * HOUR);
}

#[test]
fn fall_back_day_is_twenty_five_hours() {
    let selection = select_day(
        parse_date("2024-11-03").unwrap(),
        parse_timezone("America/New_York").unwrap(),
        TimezoneSource::Explicit,
    )
    .unwrap();
    assert_eq!(selection.interval.end - selection.interval.start, 25 * HOUR);
}

#[test]
fn interval_is_half_open() {
    let interval = UtcInterval { start: 10, end: 20 };
    assert!(interval.contains(10));
    assert!(interval.contains(19));
    assert!(!interval.contains(20));
    assert!(!interval.contains(9));
}

#[test]
fn next_day_crosses_months_years_and_leap_days() {
    assert_eq!(
        CalendarDate::new(2024, 2, 28).unwrap().next(),
        CalendarDate::new(2024, 2, 29)
    );
    assert_eq!(
        CalendarDate::new(2023, 2, 28).unwrap().next(),
        CalendarDate::new(2023, 3, 1)
    );
    assert_eq!(
        CalendarDate::new(1900, 2, 28).unwrap().next(),
        CalendarDate::new(1900, 3, 1)
    );
    assert_eq!(
        CalendarDate::new(2000, 2, 29).unwrap().next(),
        CalendarDate::new(2000, 3, 1)
    );
    assert_eq!(
        CalendarDate::new(2024, 12, 31).unwrap().next(),
        CalendarDate::new(2025, 1, 1)
    );
    assert_eq!(CalendarDate::new(262142, 12, 31).unwrap().next(), None);
    assert_eq!(CalendarDate::new(2023, 2, 29), None);
    assert_eq!(CalendarDate::new(2023, 13, 1), None);
}

#[test]
fn last_day_cannot_be_selected() {
    let error = select_day(
        CalendarDate::new(262142, 12, 31).unwrap(),
        parse_timezone("Etc/UTC").unwrap(),
        TimezoneSource::Explicit,
    )
    .unwrap_err();
    assert_eq!(
        error,
        DaySelectionError::DateOutOfRange(CalendarDate::new(262142, 12, 31).unwrap())
    );
    assert_eq!(error.message(), "cannot select the day after +262142-12-31");
}

#[test]
fn dates_are_written_in_iso_form() {
    assert_eq!(date_text(CalendarDate::new(2024, 1, 5).unwrap()), "2024-01-05");
    assert_eq!(date_text(CalendarDate::new(7, 11, 30).unwrap()), "0007-11-30");
    assert_eq!(date_text(CalendarDate::new(-44, 3, 15).unwrap()), "-0044-03-15");
    assert_eq!(date_text(CalendarDate::new(12345, 6, 7).unwrap()), "+12345-06-07");
}

#[test]
fn invalid_inputs_are_reported_with_their_text() {
    let error = parse_date("2024-02-30").unwrap_err();
    assert_eq!(error, DaySelectionError::InvalidDate("2024-02-30".to_owned()));
    assert_eq!(
        error.message(),
        "invalid ISO date (expected YYYY-MM-DD): 2024-02-30"
    );
    let error = parse_timezone("Mars/Olympus").unwrap_err();
    assert_eq!(error.message(), "invalid IANA timezone: Mars/Olympus");
    assert_eq!(parse_timezone("Europe/Warsaw").unwrap().name(), "Europe/Warsaw");
}

struct Detector(Result<String, String>);

impl LocalTimezoneDetector for Detector {
    fn detect(&self) -> Result<String, String> {
        self.0.clone()
    }
}

#[test]
fn detection_falls_back_to_utc() {
    let (zone, source) = detected_timezone(&Detector(Ok("Asia/Tokyo".to_owned())));
    assert_eq!((zone.name(), source), ("Asia/Tokyo", TimezoneSource::Detected));
    let (zone, source) = detected_timezone(&Detector(Ok("Nowhere/Land".to_owned())));
    assert_eq!((zone.name(), source), ("Etc/UTC", TimezoneSource::Fallback));
    let (zone, source) = timezone_from_detection(Err("unavailable".to_owned()));
    assert_eq!((zone.name(), source), ("Etc/UTC", TimezoneSource::Fallback));
}
