use fuzzy_date::{days_in_month, is_leap_year, Day, Month, ParseError, Year};

#[test]
fn test_year_new_valid() {
    assert!(Year::new(1).is_ok());
    assert!(Year::new(2000).is_ok());
    assert!(Year::new(9999).is_ok());
}

#[test]
fn test_year_new_invalid_zero() {
    let result = Year::new(0);
    assert!(matches!(result, Err(ParseError::InvalidYear(0))));
}

#[test]
fn test_year_new_invalid_too_large() {
    let result = Year::new(10000);
    assert!(matches!(result, Err(ParseError::InvalidYear(10000))));
}

#[test]
fn test_year_get() {
    let year = Year::new(2024).unwrap();
    assert_eq!(year.get(), 2024);
}

#[test]
fn test_year_display() {
    let year = Year::new(2024).unwrap();
    assert_eq!(year.to_string(), "2024");
}

#[test]
fn test_year_try_from_u16() {
    let year: Year = 2024.try_into().unwrap();
    assert_eq!(year.get(), 2024);

    let result: Result<Year, _> = 0.try_into();
    assert!(result.is_err());

    let result: Result<Year, _> = 10000.try_into();
    assert!(result.is_err());
}

#[test]
fn test_year_into_u16() {
    let year = Year::new(2024).unwrap();
    let value: u16 = year.into();
    assert_eq!(value, 2024);
}

#[test]
fn test_year_ordering() {
    let y1 = Year::new(2020).unwrap();
    let y2 = Year::new(2024).unwrap();
    assert!(y1 < y2);
    assert!(y2 > y1);
    assert_eq!(y1, y1);
}

#[test]
fn test_month_new_valid() {
    for m in 1..=12 {
        assert!(Month::new(m).is_ok(), "Month {m} should be valid");
    }
}

#[test]
fn test_month_new_invalid_zero() {
    let result = Month::new(0);
    assert!(matches!(result, Err(ParseError::InvalidMonth(0))));
}

#[test]
fn test_month_new_invalid_too_large() {
    let result = Month::new(13);
    assert!(matches!(result, Err(ParseError::InvalidMonth(13))));

    let result = Month::new(255);
    assert!(matches!(result, Err(ParseError::InvalidMonth(255))));
}

#[test]
fn test_month_get() {
    let month = Month::new(8).unwrap();
    assert_eq!(month.get(), 8);
}

#[test]
fn test_month_display() {
    let month = Month::new(8).unwrap();
    assert_eq!(month.to_string(), "8");
}

#[test]
fn test_month_try_from_u8() {
    let month: Month = 8.try_into().unwrap();
    assert_eq!(month.get(), 8);

    let result: Result<Month, _> = 0.try_into();
    assert!(result.is_err());

    let result: Result<Month, _> = 13.try_into();
    assert!(result.is_err());
}

#[test]
fn test_month_into_u8() {
    let month = Month::new(8).unwrap();
    let value: u8 = month.into();
    assert_eq!(value, 8);
}

#[test]
fn test_month_ordering() {
    let m1 = Month::new(3).unwrap();
    let m2 = Month::new(8).unwrap();
    assert!(m1 < m2);
    assert!(m2 > m1);
    assert_eq!(m1, m1);
}

#[test]
fn test_day_new_valid() {
    // January - 31 days
    assert!(Day::new(1, 2024, 1).is_ok());
    assert!(Day::new(31, 2024, 1).is_ok());

    // February non-leap - 28 days
    assert!(Day::new(28, 2023, 2).is_ok());
    assert!(Day::new(29, 2023, 2).is_err());

    // February leap year - 29 days
    assert!(Day::new(29, 2024, 2).is_ok());
    assert!(Day::new(30, 2024, 2).is_err());

    // April - 30 days
    assert!(Day::new(30, 2024, 4).is_ok());
    assert!(Day::new(31, 2024, 4).is_err());
}

#[test]
fn test_day_new_invalid_zero() {
    let result = Day::new(0, 2024, 1);
    assert!(matches!(result, Err(ParseError::InvalidDay { .. })));
}

#[test]
fn test_day_new_invalid_too_large() {
    // 32 is invalid for January
    let result = Day::new(32, 2024, 1);
    assert!(matches!(
        result,
        Err(ParseError::InvalidDay {
            month: 1,
            day: 32,
            year: 2024
        })
    ));
}

#[test]
fn test_day_get() {
    let day = Day::new(15, 2024, 8).unwrap();
    assert_eq!(day.get(), 15);
}

#[test]
fn test_day_display() {
    let day = Day::new(15, 2024, 8).unwrap();
    assert_eq!(day.to_string(), "15");
}

#[test]
fn test_day_try_from_u8() {
    // Valid day (context-free validation)
    let day: Day = 15.try_into().unwrap();
    assert_eq!(day.get(), 15);

    // Zero is invalid
    let result: Result<Day, _> = 0.try_into();
    assert!(result.is_err());
}

#[test]
fn test_day_into_u8() {
    let day = Day::new(15, 2024, 8).unwrap();
    let value: u8 = day.into();
    assert_eq!(value, 15);
}

#[test]
fn test_day_ordering() {
    let d1 = Day::new(10, 2024, 8).unwrap();
    let d2 = Day::new(20, 2024, 8).unwrap();
    assert!(d1 < d2);
    assert!(d2 > d1);
    assert_eq!(d1, d1);
}

#[test]
fn test_is_leap_year_cases() {
    let cases = [
        // Divisible by 4
        (2020, true, "divisible by 4"),
        (2024, true, "divisible by 4"),
        (2021, false, "not divisible by 4"),
        (2023, false, "not divisible by 4"),
        // Century years not divisible by 400
        (1900, false, "century not divisible by 400"),
        (2100, false, "century not divisible by 400"),
        (2200, false, "century not divisible by 400"),
        (2300, false, "century not divisible by 400"),
        // Divisible by 400
        (2000, true, "divisible by 400"),
        (2400, true, "divisible by 400"),
    ];

    for (year, is_leap, description) in cases {
        assert_eq!(
            is_leap_year(year),
            is_leap,
            "Year {} ({}): expected {}",
            year,
            description,
            if is_leap {
                "leap year"
            } else {
                "not leap year"
            }
        );
    }
}

#[test]
fn test_days_in_month_31_day_months() {
    for month in [1, 3, 5, 7, 8, 10, 12] {
        assert_eq!(
            days_in_month(2024, month),
            31,
            "Month {month} should have 31 days"
        );
    }
}

#[test]
fn test_days_in_month_30_day_months() {
    for month in [4, 6, 9, 11] {
        assert_eq!(
            days_in_month(2024, month),
            30,
            "Month {month} should have 30 days"
        );
    }
}

#[test]
fn test_days_in_month_february_non_leap() {
    assert_eq!(days_in_month(2023, 2), 28);
    assert_eq!(days_in_month(2021, 2), 28);
    assert_eq!(
        days_in_month(1900, 2),
        28,
        "Century year not divisible by 400"
    );
}

#[test]
fn test_days_in_month_february_leap() {
    assert_eq!(days_in_month(2024, 2), 29);
    assert_eq!(days_in_month(2020, 2), 29);
    assert_eq!(days_in_month(2000, 2), 29, "Century year divisible by 400");
}

#[test]
fn test_all_months_have_valid_days() {
    // Verify all months in DAYS_IN_MONTH array are correct for a non-leap year
    let expected = [0, 31, 28, 31, 30, 31, 30, 31, 31, 30, 31, 30, 31];
    for month in 1..=12 {
        assert_eq!(
            days_in_month(2023, month),
            expected[month as usize],
            "Month {month} has incorrect day count"
        );
    }
}
