use chrono::Datelike;

use flight_bench::date::Date;
use flight_bench::date_range_parser::DateParser;
use flight_bench::date_range_parser::DateRange;
use flight_bench::date_range_parser::Offset;
use flight_bench::date_range_parser::OffsetParser;
use flight_bench::date_range_parser::OpsParser;
use flight_bench::date_range_parser::ParseError;
use flight_bench::date_range_parser::State;

fn today() -> Date {
    let now = chrono::Local::now().naive_local().date();
    Date { year: now.year(), month: now.month() as u8, day: now.day() as u8 }
}

fn parse_ops(s: &str) -> Result<State, ParseError> {
    let (state, consumed) = OpsParser::default().parse_str(s.as_bytes(), 0)?;
    if consumed == s.len() {
        Ok(state)
    } else {
        Err(ParseError::InvalidOps)
    }
}

fn parse_offset(s: &str) -> Result<Offset, ParseError> {
    let (offset, consumed) = OffsetParser::default().parse_str(s.as_bytes(), 0)?;
    if consumed == s.len() {
        Ok(offset)
    } else {
        Err(ParseError::InvalidOffsetUnit)
    }
}

fn parse_date(s: &str) -> Result<Date, ParseError> {
    let (date, consumed) = DateParser::default().parse_str(s.as_bytes(), 0, today())?;
    if consumed == s.len() {
        Ok(date)
    } else {
        Err(ParseError::InvalidDate)
    }
}

#[test]
fn test_parse_date_range() {
    let target_range = DateRange {
        start: Date::new(2020, 12, 31).unwrap(),
        end: Date::new(2021, 12, 31).unwrap(),
    };
    let date = "2020-12-31..2021-12-31";
    let range = DateRange::from_str(date.as_bytes(), today()).unwrap();
    assert_eq!(range, target_range);

    let date = "2020-12-31^1y";
    let range = DateRange::from_str(date.as_bytes(), today()).unwrap();
    assert_eq!(range, target_range);
}

#[test]
fn test_ops_parser() {
    matches!(parse_ops("..").unwrap(), State::ParsingDate(_));
    matches!(parse_ops("^").unwrap(), State::ParsingOffset(_));

    assert!(parse_ops("^.").is_err());
}

#[test]
fn test_offset_parser() {
    assert_eq!(parse_offset("1d").unwrap(), Offset::Days(1));

    assert_eq!(parse_offset("1m").unwrap(), Offset::Months(1));

    assert_eq!(parse_offset("1y").unwrap(), Offset::Months(12));

    assert!(parse_offset("1y1").is_err())
}

#[test]
fn test_complete_date_parser() {
    assert_eq!(parse_date("2022-01-01").unwrap(), Date::new(2022, 1, 1).unwrap());

    assert_eq!(parse_date("2022-1-1").unwrap(), Date::new(2022, 1, 1).unwrap());

    assert_eq!(parse_date("2022-1-1").unwrap(), Date::new(2022, 1, 1).unwrap());

    assert_eq!(parse_date("2022-1-1").unwrap(), Date::new(2022, 1, 1).unwrap());
}

#[test]
fn test_partial_date_parser() {
    let now = today();
    assert_eq!(parse_date("01-01").unwrap(), Date::new(now.year, 1, 1).unwrap());

    assert_eq!(parse_date("1-1").unwrap(), Date::new(now.year, 1, 1).unwrap());

    assert_eq!(parse_date("1").unwrap(), Date::new(now.year, now.month as u32, 1).unwrap());

    assert_eq!(parse_date("01").unwrap(), Date::new(now.year, now.month as u32, 1).unwrap());
}

#[test]
fn from_str_now_resolves_full_dates_regardless_of_clock() {
    let range = DateRange::from_str_now("2020-12-31..2021-12-31".as_bytes()).unwrap();
    assert_eq!(range.start, Date::new(2020, 12, 31).unwrap());
    assert_eq!(range.end, Date::new(2021, 12, 31).unwrap());
}

#[test]
fn range_by_day_offset_crosses_leap_day() {
    let range = DateRange::from_str("2020-02-28^2d".as_bytes(), today()).unwrap();
    assert_eq!(range.start, Date::new(2020, 2, 28).unwrap());
    assert_eq!(range.end, Date::new(2020, 3, 1).unwrap());
}

#[test]
fn month_offset_clamps_to_last_day() {
    let range = DateRange::from_str("2022-01-31^1m".as_bytes(), today()).unwrap();
    assert_eq!(range.end, Date::new(2022, 2, 28).unwrap());
}

#[test]
fn error_not_enough_dates() {
    assert_eq!(
        DateRange::from_str("2020-01-01".as_bytes(), today()),
        Err(ParseError::NotEnoughDates)
    );
    assert_eq!(DateRange::from_str("".as_bytes(), today()), Err(ParseError::NotEnoughDates));
}

#[test]
fn error_invalid_ops() {
    assert_eq!(
        DateRange::from_str("2020-01-01**2020-01-02".as_bytes(), today()),
        Err(ParseError::InvalidOps)
    );
}

#[test]
fn error_invalid_date() {
    assert_eq!(
        DateRange::from_str("2020-13-01..2020-12-31".as_bytes(), today()),
        Err(ParseError::InvalidDate)
    );
    assert_eq!(parse_date("2021-2-29"), Err(ParseError::InvalidDate));
}

#[test]
fn error_too_many_fields() {
    assert_eq!(parse_date("1-2-3-4"), Err(ParseError::TooManyFields));
}

#[test]
fn error_too_many_dates() {
    assert_eq!(
        DateRange::from_str("2020-01-01..2020-01-02..2020-01-03".as_bytes(), today()),
        Err(ParseError::TooManyDates)
    );
}

#[test]
fn error_offset_without_date() {
    assert_eq!(
        DateRange::from_str("2020-01-01..2020-01-02^1d".as_bytes(), today()),
        Err(ParseError::OffsetWithoutDate)
    );
}

#[test]
fn error_invalid_offset_unit() {
    assert_eq!(
        DateRange::from_str("2020-01-01^5".as_bytes(), today()),
        Err(ParseError::InvalidOffsetUnit)
    );
}

#[test]
fn error_offset_overflow() {
    assert_eq!(
        DateRange::from_str("2020-01-01^400000000y".as_bytes(), today()),
        Err(ParseError::OffsetOverflow)
    );
}

#[test]
fn error_invalid_offset_out_of_range() {
    assert_eq!(
        DateRange::from_str("2020-01-01^3145716m".as_bytes(), today()),
        Err(ParseError::InvalidOffset)
    );
}

#[test]
fn iter_days_lists_the_half_open_range() {
    let range = DateRange {
        start: Date::new(2020, 12, 30).unwrap(),
        end: Date::new(2021, 1, 2).unwrap(),
    };
    let days = range.iter_days();
    assert_eq!(
        days,
        vec![
            Date::new(2020, 12, 30).unwrap(),
            Date::new(2020, 12, 31).unwrap(),
            Date::new(2021, 1, 1).unwrap(),
        ]
    );
}

#[test]
fn iter_days_empty_when_start_not_before_end() {
    let d = Date::new(2021, 6, 1).unwrap();
    let range = DateRange { start: d, end: d };
    assert_eq!(range.iter_days(), vec![]);

    let backwards = DateRange { start: Date::new(2021, 6, 2).unwrap(), end: d };
    assert_eq!(backwards.iter_days(), vec![]);
}

#[test]
fn date_new_checks_the_calendar() {
    assert!(Date::new(2020, 2, 29).is_some());
    assert!(Date::new(2021, 2, 29).is_none());
    assert!(Date::new(2021, 0, 1).is_none());
    assert!(Date::new(2021, 1, 0).is_none());
    assert!(Date::new(-1, 1, 1).is_none());
}
