use anixe_cli::dates::{add_days, correct_date, parse_date, Date, DateError};

#[test]
fn main_test_correct_date() {
    let mut date = String::from("20010914");
    correct_date(&mut date);

    assert!(String::from("20010914") != date);
    assert!(String::from("2001-09-14") == date);
}

#[test]
fn test_test_correct_date() {
    let mut date = String::from("20010914");
    correct_date(&mut date);

    assert!(String::from("20010914") != date);
    assert!(String::from("2001-09-14") == date);
}

#[test]
fn main_test_add_days() {
    let mut date = String::from("20010914");
    correct_date(&mut date);

    assert!(String::from("20010914") != date);
    assert!(String::from("2001-09-14") == date);

    let day = add_days(&date, 1).unwrap();
    assert!(String::from("2001-09-15") == day);
}

#[test]
fn test_test_add_days() {
    let mut date = String::from("20010914");
    correct_date(&mut date);

    assert!(String::from("20010914") != date);
    assert!(String::from("2001-09-14") == date);

    let day = add_days(&date, 1).unwrap();
    assert!(String::from("2001-09-15") == day);
}

#[test]
fn normalize_then_parse_accepts_valid_dates() {
    let mut date = String::from("20010914");
    correct_date(&mut date);
    let parsed = parse_date(&date).unwrap();
    assert_eq!(parsed, Date { year: 2001, month: 9, day: 14 });
}

#[test]
fn normalize_then_parse_rejects_invalid_calendar_dates() {
    let mut date = String::from("20010230");
    correct_date(&mut date);
    assert_eq!(date, "2001-02-30");
    assert!(parse_date(&date).is_none());
    assert_eq!(add_days(&date, 1), Err(DateError::Parse));
}

#[test]
fn parse_date_rejects_malformed_text() {
    assert!(parse_date("2001-9-14").is_none());
    assert!(parse_date("2001/09/14").is_none());
    assert!(parse_date("2001-13-01").is_none());
    assert!(parse_date("2001-00-10").is_none());
    assert!(parse_date("2001-04-31").is_none());
    assert!(parse_date("").is_none());
}

#[test]
fn checkout_rolls_over_month_end() {
    let day = add_days(&String::from("2001-09-30"), 1).unwrap();
    assert_eq!(day, "2001-10-01");
}

#[test]
fn checkout_rolls_over_leap_february() {
    let day = add_days(&String::from("2020-02-28"), 1).unwrap();
    assert_eq!(day, "2020-02-29");
    let day = add_days(&String::from("2020-02-29"), 1).unwrap();
    assert_eq!(day, "2020-03-01");
}

#[test]
fn checkout_in_plain_february() {
    let day = add_days(&String::from("2019-02-28"), 1).unwrap();
    assert_eq!(day, "2019-03-01");
}

#[test]
fn century_years_are_not_leap_unless_divisible_by_400() {
    let day = add_days(&String::from("2100-02-28"), 1).unwrap();
    assert_eq!(day, "2100-03-01");
    let day = add_days(&String::from("2000-02-28"), 1).unwrap();
    assert_eq!(day, "2000-02-29");
}

#[test]
fn checkout_rolls_over_year_end() {
    let day = add_days(&String::from("2020-12-31"), 1).unwrap();
    assert_eq!(day, "2021-01-01");
}

#[test]
fn add_days_fails_past_the_supported_range() {
    assert_eq!(add_days(&String::from("9999-12-31"), 1), Err(DateError::OutOfRange));
}

#[test]
fn add_days_can_step_many_days() {
    let day = add_days(&String::from("2020-02-25"), 10).unwrap();
    assert_eq!(day, "2020-03-06");
}
