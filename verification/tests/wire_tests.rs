use fuzzy_date::{Day, FuzzyDate, FuzzyDateRange, Month, Year};
use serde::de::Error;
use serde::{Deserialize, Deserializer, Serialize, Serializer};

/// A date on the wire: its canonical text.
#[derive(Debug, PartialEq)]
struct WireDate(FuzzyDate);

impl Serialize for WireDate {
    fn serialize<S: Serializer>(&self, serializer: S) -> Result<S::Ok, S::Error> {
        serializer.serialize_str(&self.0.to_string())
    }
}

impl<'de> Deserialize<'de> for WireDate {
    fn deserialize<D: Deserializer<'de>>(deserializer: D) -> Result<Self, D::Error> {
        let text = String::deserialize(deserializer)?;
        FuzzyDate::parse(&text).map(WireDate).map_err(|e| D::Error::custom(e.to_string()))
    }
}

/// A range on the wire: its canonical text.
#[derive(Debug, PartialEq)]
struct WireRange(FuzzyDateRange);

impl Serialize for WireRange {
    fn serialize<S: Serializer>(&self, serializer: S) -> Result<S::Ok, S::Error> {
        serializer.serialize_str(&self.0.to_string())
    }
}

impl<'de> Deserialize<'de> for WireRange {
    fn deserialize<D: Deserializer<'de>>(deserializer: D) -> Result<Self, D::Error> {
        let text = String::deserialize(deserializer)?;
        FuzzyDateRange::parse(&text).map(WireRange).map_err(|e| D::Error::custom(e.to_string()))
    }
}

/// A year on the wire: its number.
#[derive(Debug, PartialEq)]
struct WireYear(Year);

impl Serialize for WireYear {
    fn serialize<S: Serializer>(&self, serializer: S) -> Result<S::Ok, S::Error> {
        serializer.serialize_u16(self.0.get())
    }
}

impl<'de> Deserialize<'de> for WireYear {
    fn deserialize<D: Deserializer<'de>>(deserializer: D) -> Result<Self, D::Error> {
        let value = u16::deserialize(deserializer)?;
        Year::try_from(value).map(WireYear).map_err(|e| D::Error::custom(e.to_string()))
    }
}

/// A month on the wire: its number.
#[derive(Debug, PartialEq)]
struct WireMonth(Month);

impl Serialize for WireMonth {
    fn serialize<S: Serializer>(&self, serializer: S) -> Result<S::Ok, S::Error> {
        serializer.serialize_u8(self.0.get())
    }
}

impl<'de> Deserialize<'de> for WireMonth {
    fn deserialize<D: Deserializer<'de>>(deserializer: D) -> Result<Self, D::Error> {
        let value = u8::deserialize(deserializer)?;
        Month::try_from(value).map(WireMonth).map_err(|e| D::Error::custom(e.to_string()))
    }
}

/// A day on the wire: its number.
#[derive(Debug, PartialEq)]
struct WireDay(Day);

impl Serialize for WireDay {
    fn serialize<S: Serializer>(&self, serializer: S) -> Result<S::Ok, S::Error> {
        serializer.serialize_u8(self.0.get())
    }
}

impl<'de> Deserialize<'de> for WireDay {
    fn deserialize<D: Deserializer<'de>>(deserializer: D) -> Result<Self, D::Error> {
        let value = u8::deserialize(deserializer)?;
        Day::try_from(value).map(WireDay).map_err(|e| D::Error::custom(e.to_string()))
    }
}

fn fuzzy_year(year: u16) -> FuzzyDate {
    FuzzyDate::Year { year: Year::new(year).unwrap() }
}

fn fuzzy_month(year: u16, month: u8) -> FuzzyDate {
    FuzzyDate::Month { year: Year::new(year).unwrap(), month: Month::new(month).unwrap() }
}

fn fuzzy_day(year: u16, month: u8, day: u8) -> FuzzyDate {
    FuzzyDate::Day {
        year: Year::new(year).unwrap(),
        month: Month::new(month).unwrap(),
        day: Day::new(day, year, month).unwrap(),
    }
}

#[test]
fn test_serde() {
    let date = FuzzyDate::Month {
        year: Year::new(1991).unwrap(),
        month: Month::new(8).unwrap(),
    };
    let json = serde_json::to_string(&WireDate(date)).unwrap();
    let parsed: WireDate = serde_json::from_str(&json).unwrap();
    assert_eq!(date, parsed.0);
}

#[test]
fn lib_test_serde_string_format() {
    // Year only
    let date = FuzzyDate::Year {
        year: Year::new(1991).unwrap(),
    };
    let json = serde_json::to_string(&WireDate(date)).unwrap();
    assert_eq!(json, "\"1991\"");
    let parsed: WireDate = serde_json::from_str(&json).unwrap();
    assert_eq!(date, parsed.0);

    // Month and year
    let date = FuzzyDate::Month {
        year: Year::new(1991).unwrap(),
        month: Month::new(8).unwrap(),
    };
    let json = serde_json::to_string(&WireDate(date)).unwrap();
    assert_eq!(json, "\"1991-08\"");
    let parsed: WireDate = serde_json::from_str(&json).unwrap();
    assert_eq!(date, parsed.0);

    // Full date
    let date = FuzzyDate::Day {
        year: Year::new(1991).unwrap(),
        month: Month::new(8).unwrap(),
        day: Day::new(15, 1991, 8).unwrap(),
    };
    let json = serde_json::to_string(&WireDate(date)).unwrap();
    assert_eq!(json, "\"1991-08-15\"");
    let parsed: WireDate = serde_json::from_str(&json).unwrap();
    assert_eq!(date, parsed.0);
}

#[test]
fn test_serde_validation() {
    // Invalid month (13) should be rejected
    let json = "\"2024-13\"";
    let result: Result<WireDate, _> = serde_json::from_str(json);
    assert!(result.is_err());

    // Invalid day (32) should be rejected
    let json = "\"2024-01-32\"";
    let result: Result<WireDate, _> = serde_json::from_str(json);
    assert!(result.is_err());

    // Invalid day for February (30) should be rejected
    let json = "\"2024-02-30\"";
    let result: Result<WireDate, _> = serde_json::from_str(json);
    assert!(result.is_err());

    // Invalid year (10000) should be rejected
    let json = "\"10000\"";
    let result: Result<WireDate, _> = serde_json::from_str(json);
    assert!(result.is_err());

    // Valid values should succeed
    let json = "\"2024-12\"";
    let result: Result<WireDate, _> = serde_json::from_str(json);
    assert!(result.is_ok());

    let json = "\"2024-02-29\"";
    let result: Result<WireDate, _> = serde_json::from_str(json);
    assert!(result.is_ok());
}

#[test]
fn range_test_serde_string_format() {
    let start = fuzzy_year(1990);
    let end = fuzzy_year(2000);
    let range = FuzzyDateRange::new(start, end).expect("failed to construct range for serde string test");

    let json = serde_json::to_string(&WireRange(range)).expect("failed to serialize range to JSON");
    // Should be a JSON string, not an object
    assert_eq!(json, "\"1990/2000\"");

    let parsed: WireRange = serde_json::from_str(&json).expect("failed to deserialize range from JSON");
    assert_eq!(range, parsed.0);
}

#[test]
fn test_serde_mixed_precision() {
    let start = fuzzy_month(1991, 8);
    let end = fuzzy_year(2025);
    let range = FuzzyDateRange::new(start, end).expect("failed to construct range for serde mixed-precision test");

    let json = serde_json::to_string(&WireRange(range)).expect("failed to serialize mixed-precision range");
    assert_eq!(json, "\"1991-08/2025\"");

    let parsed: WireRange =
        serde_json::from_str(&json).expect("failed to deserialize mixed-precision range from JSON");
    assert_eq!(range, parsed.0);
}

#[test]
fn test_serde_full_precision() {
    let start = fuzzy_day(1990, 6, 15);
    let end = fuzzy_day(2000, 12, 31);
    let range = FuzzyDateRange::new(start, end).expect("failed to construct range for serde full-precision test");

    let json = serde_json::to_string(&WireRange(range)).expect("failed to serialize full-precision range");
    assert_eq!(json, "\"1990-06-15/2000-12-31\"");

    let parsed: WireRange = serde_json::from_str(&json).expect("failed to deserialize full-precision range");
    assert_eq!(range, parsed.0);
}

#[test]
fn test_year_serde() {
    let year = Year::new(2024).unwrap();
    let json = serde_json::to_string(&WireYear(year)).unwrap();
    assert_eq!(json, "2024");

    let parsed: WireYear = serde_json::from_str(&json).unwrap();
    assert_eq!(year, parsed.0);
    assert!(serde_json::from_str::<WireYear>("0").is_err());
    assert!(serde_json::from_str::<WireYear>("10000").is_err());
}

#[test]
fn test_month_serde() {
    let month = Month::new(8).unwrap();
    let json = serde_json::to_string(&WireMonth(month)).unwrap();
    assert_eq!(json, "8");

    let parsed: WireMonth = serde_json::from_str(&json).unwrap();
    assert_eq!(month, parsed.0);
    assert!(serde_json::from_str::<WireMonth>("13").is_err());
}

#[test]
fn test_day_serde() {
    let day = Day::new(15, 2024, 8).unwrap();
    let json = serde_json::to_string(&WireDay(day)).unwrap();
    assert_eq!(json, "15");

    let parsed: WireDay = serde_json::from_str(&json).unwrap();
    assert_eq!(day, parsed.0);
    assert!(serde_json::from_str::<WireDay>("0").is_err());
}

#[test]
fn wire_errors_carry_the_message_of_the_library() {
    let error = serde_json::from_str::<WireDate>("\"2024-13\"").unwrap_err();
    assert!(error.to_string().contains("Invalid month: 13 (must be 1-12)"));
    let error = serde_json::from_str::<WireRange>("\"2000/1990\"").unwrap_err();
    assert!(error.to_string().contains("Invalid date range: start (2000) is after end (1990)"));
}
