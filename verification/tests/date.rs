use chrono::TimeZone;
use chrono_tz::Australia;
use opal_downloader::date::{
    clamp, components_to_numbers, date_before, date_string_to_components, days_in_month,
    month_days, parse_and_clamp, parse_date, single_date, try_parse_and_clamp,
};
use opal_downloader::error::ErrorKind;
use opal_downloader::zone::{CivilDate, LocalMidnight};

fn to_rfc3339(date: CivilDate) -> String {
    Australia::NSW.timestamp_opt(date.timestamp, 0).unwrap().to_rfc3339()
}

fn at(timestamp: i64) -> CivilDate {
    CivilDate { timestamp }
}

fn wide() -> (CivilDate, CivilDate) {
    (at(i64::MIN), at(i64::MAX))
}

#[test]
fn test_parse_date() {
    assert_eq!(to_rfc3339(parse_date("2000-01-01").unwrap()), "2000-01-01T00:00:00+11:00");
    assert_eq!(to_rfc3339(parse_date("2023-11-04").unwrap()), "2023-11-04T00:00:00+11:00");
    assert_eq!(to_rfc3339(parse_date("2022-07-23").unwrap()), "2022-07-23T00:00:00+10:00");

    assert!(parse_date("2022-17-23").is_err());
}

#[test]
fn test_date_string_to_components() {
    assert_eq!(date_string_to_components("1988-04-20").unwrap(), ["1988", "04", "20"]);
    assert_eq!(date_string_to_components("2000-02-01").unwrap(), ["2000", "02", "01"]);
    assert_eq!(date_string_to_components("1969-12-31").unwrap(), ["1969", "12", "31"]);

    assert!(date_string_to_components("2002-123-19").is_err());
    assert!(date_string_to_components("hello, world").is_err());
}

#[test]
fn test_components_to_numbers() {
    assert_eq!(components_to_numbers(["2023", "11", "30"]).unwrap(), [2023, 11, 30]);
    assert_eq!(components_to_numbers(["1998", "12", "31"]).unwrap(), [1998, 12, 31]);
    assert_eq!(components_to_numbers(["0000", "01", "01"]).unwrap(), [0, 1, 1]);

    assert!(components_to_numbers(["0000", "00", "01"]).is_err());
    assert!(components_to_numbers(["1998", "12", "32"]).is_err());
}

#[test]
fn test_days_in_month() {
    assert_eq!(days_in_month(2023, 1), 31);
    assert_eq!(days_in_month(2023, 2), 28);
    assert_eq!(days_in_month(2023, 3), 31);
    assert_eq!(days_in_month(2023, 4), 30);
    assert_eq!(days_in_month(2023, 5), 31);
    assert_eq!(days_in_month(2023, 6), 30);
    assert_eq!(days_in_month(2023, 7), 31);
    assert_eq!(days_in_month(2023, 8), 31);
    assert_eq!(days_in_month(2023, 9), 30);
    assert_eq!(days_in_month(2023, 10), 31);
    assert_eq!(days_in_month(2023, 11), 30);
    assert_eq!(days_in_month(2023, 12), 31);

    assert_eq!(days_in_month(2020, 2), 29);
    assert_eq!(days_in_month(2000, 2), 29);
    assert_eq!(days_in_month(2100, 2), 28);
}

#[test]
fn days_in_month_follows_the_leap_year_rule() {
    assert_eq!(days_in_month(0, 2), 29);
    assert_eq!(days_in_month(400, 2), 29);
    assert_eq!(days_in_month(1900, 2), 28);
    assert_eq!(days_in_month(2024, 2), 29);
    assert_eq!(days_in_month(2023, 2), 28);
    assert_eq!(days_in_month(65200, 2), 29);
    assert_eq!(days_in_month(65300, 2), 28);
}

#[test]
fn days_in_month_counts_thirty_for_a_month_that_is_none() {
    assert_eq!(days_in_month(2023, 0), 30);
    assert_eq!(days_in_month(2023, 13), 30);
    assert_eq!(days_in_month(2023, u16::MAX), 30);
}

#[test]
fn parse_date_gives_the_instant_of_local_midnight() {
    assert_eq!(parse_date("2000-01-01").unwrap(), at(946_645_200));
    assert_eq!(parse_date("2022-07-23").unwrap(), at(1_658_498_400));
    assert_eq!(parse_date("2024-02-29").unwrap(), at(1_709_125_200));
    assert_eq!(parse_date("2020-01-01").unwrap(), at(1_577_797_200));
}

#[test]
fn parse_date_keeps_midnight_on_the_days_the_clocks_change() {
    assert_eq!(to_rfc3339(parse_date("2023-10-01").unwrap()), "2023-10-01T00:00:00+10:00");
    assert_eq!(to_rfc3339(parse_date("2023-04-02").unwrap()), "2023-04-02T00:00:00+11:00");
}

#[test]
fn parse_date_shows_the_numbers_that_were_written() {
    for text in ["0001-01-01", "1969-12-31", "2000-02-29", "2021-03-04", "9999-12-31"] {
        let date = parse_date(text).unwrap();
        assert_eq!(&to_rfc3339(date)[..10], text);
        assert_eq!(&to_rfc3339(date)[10..19], "T00:00:00");
    }
}

#[test]
fn parse_date_refuses_text_of_another_form() {
    for text in [
        "",
        "hello, world",
        "2002-123-19",
        "2023/11/04",
        "2023-11-4",
        "23-11-04",
        "20231104",
        " 2023-11-04",
        "2023-11-04 ",
        "2023-11-04\n",
        "2023-11-04T00:00:00",
        "2023-1a-04",
        "+023-11-04",
        "2023-11--4",
        "2023_11_04",
    ] {
        let error = parse_date(text).unwrap_err();
        assert_eq!(error.kind(), &ErrorKind::CouldNotParseDate(text.to_string()));
    }
}

#[test]
fn parse_date_refuses_a_month_out_of_range() {
    assert_eq!(parse_date("2022-17-23").unwrap_err().kind(), &ErrorKind::InvalidMonth(17));
    assert_eq!(parse_date("0000-00-01").unwrap_err().kind(), &ErrorKind::InvalidMonth(0));
    assert_eq!(parse_date("2022-13-01").unwrap_err().kind(), &ErrorKind::InvalidMonth(13));
    assert_eq!(parse_date("2022-99-99").unwrap_err().kind(), &ErrorKind::InvalidMonth(99));
    assert_eq!(parse_date("2022-00-00").unwrap_err().kind(), &ErrorKind::InvalidMonth(0));
}

#[test]
fn parse_date_refuses_a_day_out_of_range() {
    assert_eq!(
        parse_date("1998-12-32").unwrap_err().kind(),
        &ErrorKind::InvalidDateForMonth(12, 32)
    );
    assert_eq!(
        parse_date("2023-02-29").unwrap_err().kind(),
        &ErrorKind::InvalidDateForMonth(2, 29)
    );
    assert_eq!(
        parse_date("2100-02-29").unwrap_err().kind(),
        &ErrorKind::InvalidDateForMonth(2, 29)
    );
    assert_eq!(
        parse_date("2023-04-31").unwrap_err().kind(),
        &ErrorKind::InvalidDateForMonth(4, 31)
    );
    assert_eq!(
        parse_date("2023-01-00").unwrap_err().kind(),
        &ErrorKind::InvalidDateForMonth(1, 0)
    );
    assert!(parse_date("2023-01-31").is_ok());
    assert!(parse_date("2000-02-29").is_ok());
}

#[test]
fn parse_date_refuses_digits_beyond_ascii() {
    let texts = [
        "\u{0662}\u{0660}\u{0662}\u{0663}-\u{0660}\u{0661}-\u{0660}\u{0661}".to_string(),
        "\u{0662}\u{0660}\u{0662}\u{0663}-11-04".to_string(),
        "2023-11-\u{ff10}\u{ff14}".to_string(),
        "2023-1\u{0661}-04".to_string(),
    ];
    for text in texts {
        assert_eq!(
            parse_date(&text).unwrap_err().kind(),
            &ErrorKind::CouldNotParseDate(text.clone())
        );
    }
}

#[test]
fn date_string_to_components_refuses_digits_beyond_ascii() {
    let text = "\u{0662}\u{0660}\u{0662}\u{0663}-\u{0660}\u{0661}-\u{0660}\u{0661}";
    assert_eq!(
        date_string_to_components(text).unwrap_err().kind(),
        &ErrorKind::CouldNotParseDate(text.to_string())
    );
    let text = "\u{0661}\u{0669}\u{0668}\u{0668}-\u{0660}\u{0664}-20";
    assert_eq!(
        date_string_to_components(text).unwrap_err().kind(),
        &ErrorKind::CouldNotParseDate(text.to_string())
    );
    assert_eq!(
        date_string_to_components("1988-04-2x").unwrap_err().kind(),
        &ErrorKind::CouldNotParseDate("1988-04-2x".to_string())
    );
}

#[test]
fn date_string_to_components_takes_ten_plain_characters() {
    assert_eq!(date_string_to_components("0000-00-00").unwrap(), ["0000", "00", "00"]);
    assert_eq!(date_string_to_components("9999-99-99").unwrap(), ["9999", "99", "99"]);
    for text in ["", "2023-11-0", "2023-11-040", "2023-11-04\n", "\n2023-11-04", "2023 11 04"] {
        assert_eq!(
            date_string_to_components(text).unwrap_err().kind(),
            &ErrorKind::CouldNotParseDate(text.to_string())
        );
    }
}

#[test]
fn components_to_numbers_names_the_field_that_is_no_number() {
    assert_eq!(
        components_to_numbers(["year", "11", "30"]).unwrap_err().kind(),
        &ErrorKind::CouldNotParseNumericComponent(0, "year".to_string())
    );
    assert_eq!(
        components_to_numbers(["2023", "", "30"]).unwrap_err().kind(),
        &ErrorKind::CouldNotParseNumericComponent(1, String::new())
    );
    assert_eq!(
        components_to_numbers(["2023", "11", "65536"]).unwrap_err().kind(),
        &ErrorKind::CouldNotParseNumericComponent(2, "65536".to_string())
    );
    assert_eq!(
        components_to_numbers(["x", "y", "z"]).unwrap_err().kind(),
        &ErrorKind::CouldNotParseNumericComponent(0, "x".to_string())
    );
}

#[test]
fn components_to_numbers_judges_the_month_before_the_day() {
    assert_eq!(
        components_to_numbers(["0000", "00", "01"]).unwrap_err().kind(),
        &ErrorKind::InvalidMonth(0)
    );
    assert_eq!(
        components_to_numbers(["2023", "13", "99"]).unwrap_err().kind(),
        &ErrorKind::InvalidMonth(13)
    );
    assert_eq!(
        components_to_numbers(["1998", "12", "32"]).unwrap_err().kind(),
        &ErrorKind::InvalidDateForMonth(12, 32)
    );
    assert_eq!(components_to_numbers(["65535", "2", "28"]).unwrap(), [65535, 2, 28]);
    assert_eq!(components_to_numbers(["+2023", "+11", "+30"]).unwrap(), [2023, 11, 30]);
}

#[test]
fn single_date_takes_one_instant_and_no_other() {
    assert_eq!(single_date(2023, 11, 4, LocalMidnight::Unique(at(7))).unwrap(), at(7));
    assert_eq!(
        single_date(2023, 11, 4, LocalMidnight::Fold(at(7), at(8))).unwrap_err().kind(),
        &ErrorKind::NoSingleDate(2023, 11, 4)
    );
    assert_eq!(
        single_date(2023, 11, 4, LocalMidnight::Gap).unwrap_err().kind(),
        &ErrorKind::NoSingleDate(2023, 11, 4)
    );
}

#[test]
fn clamp_moves_a_date_into_the_window() {
    let (min, max) = (at(10), at(20));
    assert_eq!(clamp(at(9), min, max), min);
    assert_eq!(clamp(at(i64::MIN), min, max), min);
    assert_eq!(clamp(at(10), min, max), at(10));
    assert_eq!(clamp(at(15), min, max), at(15));
    assert_eq!(clamp(at(20), min, max), at(20));
    assert_eq!(clamp(at(21), min, max), max);
    assert_eq!(clamp(at(i64::MAX), min, max), max);
    assert_eq!(clamp(at(3), at(5), at(5)), at(5));
}

#[test]
fn parse_and_clamp_keeps_a_date_inside_the_window() {
    let (min, max) = wide();
    let date = parse_and_clamp(min, max, "2000-01-01").unwrap();
    assert_eq!(to_rfc3339(date), "2000-01-01T00:00:00+11:00");
    let min = parse_date("2020-01-01").unwrap();
    let max = parse_date("2023-11-05").unwrap();
    assert_eq!(parse_and_clamp(min, max, "2020-01-01").unwrap(), min);
    assert_eq!(parse_and_clamp(min, max, "2023-11-05").unwrap(), max);
    assert_eq!(parse_and_clamp(min, max, "2021-03-04").unwrap(), at(1_614_776_400));
}

#[test]
fn parse_and_clamp_moves_a_date_outside_the_window() {
    let min = parse_date("2020-01-01").unwrap();
    let max = parse_date("2023-11-05").unwrap();
    assert_eq!(parse_and_clamp(min, max, "2019-12-31").unwrap(), min);
    assert_eq!(parse_and_clamp(min, max, "2000-01-01").unwrap(), min);
    assert_eq!(parse_and_clamp(min, max, "2023-11-06").unwrap(), max);
    assert_eq!(parse_and_clamp(min, max, "9999-12-31").unwrap(), max);
}

#[test]
fn parse_and_clamp_fails_as_parsing_does() {
    let min = parse_date("2020-01-01").unwrap();
    let max = parse_date("2023-11-05").unwrap();
    assert_eq!(
        parse_and_clamp(min, max, "hello, world").unwrap_err().kind(),
        &ErrorKind::CouldNotParseDate("hello, world".to_string())
    );
    assert_eq!(
        parse_and_clamp(min, max, "2022-17-23").unwrap_err().kind(),
        &ErrorKind::InvalidMonth(17)
    );
    assert_eq!(
        parse_and_clamp(min, max, "1998-12-32").unwrap_err().kind(),
        &ErrorKind::InvalidDateForMonth(12, 32)
    );
    assert_eq!(
        parse_and_clamp(min, max, "0000-00-01").unwrap_err().kind(),
        &ErrorKind::InvalidMonth(0)
    );
}

#[test]
fn parse_and_clamp_refuses_text_whatever_the_window() {
    let early = parse_date("2020-01-01").unwrap();
    let late = parse_date("2023-11-05").unwrap();
    for (min, max) in [(early, late), (late, early), (early, early)] {
        assert_eq!(
            parse_and_clamp(min, max, "hello, world").unwrap_err().kind(),
            &ErrorKind::CouldNotParseDate("hello, world".to_string())
        );
        assert_eq!(
            parse_and_clamp(min, max, "2022-17-23").unwrap_err().kind(),
            &ErrorKind::InvalidMonth(17)
        );
        assert_eq!(
            parse_and_clamp(min, max, "2023-02-29").unwrap_err().kind(),
            &ErrorKind::InvalidDateForMonth(2, 29)
        );
    }
}

#[test]
fn try_parse_and_clamp_does_nothing_with_a_date_and_an_empty_window() {
    let early = parse_date("2020-01-01").unwrap();
    let late = parse_date("2023-11-05").unwrap();
    assert!(try_parse_and_clamp(late, early, "2021-03-04").is_none());
    assert!(try_parse_and_clamp(late, early, "1999-01-01").is_none());
    assert_eq!(
        try_parse_and_clamp(late, early, "2021-13-04").unwrap().unwrap_err().kind(),
        &ErrorKind::InvalidMonth(13)
    );
    assert_eq!(
        try_parse_and_clamp(late, early, "soon").unwrap().unwrap_err().kind(),
        &ErrorKind::CouldNotParseDate("soon".to_string())
    );
}

#[test]
fn try_parse_and_clamp_moves_a_date_into_a_window() {
    let early = parse_date("2020-01-01").unwrap();
    let late = parse_date("2023-11-05").unwrap();
    assert_eq!(try_parse_and_clamp(early, late, "2021-03-04").unwrap().unwrap(), at(1_614_776_400));
    assert_eq!(try_parse_and_clamp(early, late, "1999-01-01").unwrap().unwrap(), early);
    assert_eq!(try_parse_and_clamp(early, late, "2024-01-01").unwrap().unwrap(), late);
    assert_eq!(try_parse_and_clamp(early, early, "2024-01-01").unwrap().unwrap(), early);
}

#[test]
fn date_before_steps_back_in_the_calendar() {
    assert_eq!(date_before(2023, 10, 3, 0), Some((2023, 10, 3)));
    assert_eq!(date_before(2023, 10, 3, 1), Some((2023, 10, 2)));
    assert_eq!(date_before(2023, 10, 3, 5), Some((2023, 9, 28)));
    assert_eq!(date_before(2023, 10, 6, 5), Some((2023, 10, 1)));
    assert_eq!(date_before(2024, 3, 1, 1), Some((2024, 2, 29)));
    assert_eq!(date_before(2023, 3, 1, 1), Some((2023, 2, 28)));
    assert_eq!(date_before(2100, 3, 3, 5), Some((2100, 2, 26)));
    assert_eq!(date_before(2000, 3, 3, 5), Some((2000, 2, 27)));
    assert_eq!(date_before(2020, 1, 1, 5), Some((2019, 12, 27)));
    assert_eq!(date_before(2020, 1, 3, 5), Some((2019, 12, 29)));
    assert_eq!(date_before(2023, 12, 31, 365), Some((2022, 12, 31)));
    assert_eq!(date_before(2024, 12, 31, 366), Some((2023, 12, 31)));
    assert_eq!(date_before(1, 1, 1, 1), Some((0, 12, 31)));
    assert_eq!(date_before(0, 1, 1, 1), Some((-1, 12, 31)));
}

#[test]
fn date_before_stops_at_the_first_year() {
    assert_eq!(date_before(i32::MIN, 1, 6, 5), Some((i32::MIN, 1, 1)));
    assert_eq!(date_before(i32::MIN, 1, 5, 5), None);
    assert_eq!(date_before(i32::MIN, 1, 1, 1), None);
    assert_eq!(date_before(i32::MIN, 1, 1, 0), Some((i32::MIN, 1, 1)));
}

#[test]
fn month_days_counts_as_days_in_month_does() {
    for year in [0u16, 4, 100, 400, 1900, 2000, 2023, 2024, 2100, 65535] {
        for month in 0u16..=13 {
            assert_eq!(month_days(i32::from(year), u32::from(month)), u32::from(days_in_month(year, month)));
        }
    }
    assert_eq!(month_days(-4, 2), 29);
    assert_eq!(month_days(-1, 2), 28);
    assert_eq!(month_days(-100, 2), 28);
    assert_eq!(month_days(-400, 2), 29);
    assert_eq!(month_days(i32::MIN, 2), 29);
    assert_eq!(month_days(i32::MAX, 2), 28);
    assert_eq!(month_days(2023, u32::MAX), 30);
}
