use chrono::NaiveDate;
use hoarder::date::{read_date, DateKey, DatePattern};

#[test]
fn reads_a_dashed_date() {
    assert_eq!(
        read_date("2015-09-05", DatePattern::Dashed),
        Some(DateKey { year: 2015, month: 9, day: 5 })
    );
}

#[test]
fn reads_a_compact_date() {
    assert_eq!(
        read_date("20230615", DatePattern::Compact),
        Some(DateKey { year: 2023, month: 6, day: 15 })
    );
}

#[test]
fn reads_the_date_of_a_timestamp() {
    assert_eq!(
        read_date("2021-03-04 05:06:07", DatePattern::Timestamp),
        Some(DateKey { year: 2021, month: 3, day: 4 })
    );
}

#[test]
fn malformed_dates_are_no_dates() {
    assert_eq!(read_date("20231315", DatePattern::Compact), None);
    assert_eq!(read_date("20230231", DatePattern::Compact), None);
    assert_eq!(read_date("2023-06", DatePattern::Dashed), None);
    assert_eq!(read_date("", DatePattern::Dashed), None);
    assert_eq!(read_date("unknown", DatePattern::Timestamp), None);
    assert_eq!(read_date("2023-06-15", DatePattern::Timestamp), None);
}

#[test]
fn patterns_are_strftime_patterns() {
    assert_eq!(DatePattern::Compact.as_str(), "%Y%m%d");
    assert_eq!(DatePattern::Dashed.as_str(), "%Y-%m-%d");
    assert_eq!(DatePattern::Timestamp.as_str(), "%Y-%m-%d %H:%M:%S");
}

#[test]
fn writes_dates_in_three_forms() {
    let date = DateKey { year: 2023, month: 6, day: 15 };
    assert_eq!(date.to_compact(), "20230615");
    assert_eq!(date.to_dashed(), "2023-06-15");
    assert_eq!(date.to_year(), "2023");
}

#[test]
fn pads_small_years_and_numbers() {
    let date = DateKey { year: 7, month: 1, day: 2 };
    assert_eq!(date.to_compact(), "00070102");
    assert_eq!(date.to_dashed(), "0007-01-02");
    assert_eq!(date.to_year(), "0007");
}

#[test]
fn writes_dates_as_chrono_does() {
    let years = [-262143, -12345, -9999, -1, 0, 1, 999, 1000, 2024, 9999, 10000, 123456, 262142];
    for year in years {
        for (month, day) in [(1u32, 1u32), (2, 28), (10, 9), (12, 31)] {
            let theirs = NaiveDate::from_ymd_opt(year, month, day).unwrap();
            let ours = DateKey { year, month, day };
            assert_eq!(ours.to_compact(), theirs.format("%Y%m%d").to_string());
            assert_eq!(ours.to_dashed(), theirs.format("%Y-%m-%d").to_string());
            assert_eq!(ours.to_year(), theirs.format("%Y").to_string());
        }
    }
}

#[test]
fn written_dates_read_back() {
    let date = DateKey { year: 1999, month: 12, day: 31 };
    assert_eq!(read_date(&date.to_compact(), DatePattern::Compact), Some(date));
    assert_eq!(read_date(&date.to_dashed(), DatePattern::Dashed), Some(date));
}
