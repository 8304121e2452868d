use chrono::NaiveDate;
use db_migrator::format::{
    format_column_value, format_date, format_datetime, format_datetime2, format_datetime_offset,
    format_number_value, format_numeric_value, format_row_values, format_small_datetime,
    format_string_value, format_time, ColumnValue, DateTime2Value, DateTimeOffsetValue,
    DateTimeValue, DateValue, NumericValue, SmallDateTimeValue, TimeValue,
};

fn days_from_year_one(date: NaiveDate) -> u32 {
    let epoch = NaiveDate::from_ymd_opt(1, 1, 1).unwrap();
    (date - epoch).num_days() as u32
}

fn days_from_1900(date: NaiveDate) -> i32 {
    let epoch = NaiveDate::from_ymd_opt(1900, 1, 1).unwrap();
    (date - epoch).num_days() as i32
}

#[test]
fn numeric_renders_integer_and_padded_fraction() {
    let n = NumericValue { int_part: 123, dec_part: 45, scale: 2 };
    assert_eq!(format_numeric_value(Some(n)), "'123.45'");
}

#[test]
fn numeric_pads_fraction_on_the_right() {
    let n = NumericValue { int_part: 0, dec_part: 5, scale: 3 };
    assert_eq!(format_numeric_value(Some(n)), "'0.500'");
}

#[test]
fn numeric_uses_absolute_fraction() {
    let n = NumericValue { int_part: -5, dec_part: -25, scale: 2 };
    assert_eq!(format_numeric_value(Some(n)), "'-5.25'");
}

#[test]
fn numeric_null_renders_null() {
    assert_eq!(format_numeric_value(None), "NULL");
}

#[test]
fn strings_are_quoted_and_embedded_quotes_doubled() {
    assert_eq!(format_string_value(Some("O'Brien")), "'O''Brien'");
    assert_eq!(format_string_value(Some("plain")), "'plain'");
    assert_eq!(format_string_value(None), "NULL");
}

#[test]
fn numbers_render_bare() {
    assert_eq!(format_number_value(Some(42)), "42");
    assert_eq!(format_number_value(Some(-7)), "-7");
    assert_eq!(format_number_value(Some(0)), "0");
    assert_eq!(format_number_value(None), "NULL");
}

#[test]
fn binary_renders_as_quoted_hex() {
    let v = ColumnValue::Binary(Some(vec![0xab, 0x00, 0x7f]));
    assert_eq!(format_column_value(&v), "'0xab007f'");
}

#[test]
fn binary_null_renders_null() {
    assert_eq!(format_column_value(&ColumnValue::Binary(None)), "NULL");
}

#[test]
fn bit_renders_keywords_and_null() {
    assert_eq!(format_column_value(&ColumnValue::Bit(Some(true))), "true");
    assert_eq!(format_column_value(&ColumnValue::Bit(Some(false))), "false");
    assert_eq!(format_column_value(&ColumnValue::Bit(None)), "NULL");
}

#[test]
fn integers_render_bare() {
    assert_eq!(format_column_value(&ColumnValue::TinyInt(Some(200))), "200");
    assert_eq!(format_column_value(&ColumnValue::SmallInt(Some(-32000))), "-32000");
    assert_eq!(format_column_value(&ColumnValue::Int(Some(7))), "7");
    assert_eq!(format_column_value(&ColumnValue::BigInt(Some(-1))), "-1");
}

#[test]
fn float_text_is_quoted() {
    let rendered = 2.5f32.to_string();
    assert_eq!(
        format_column_value(&ColumnValue::Float(Some(rendered))),
        "'2.5'"
    );
    assert_eq!(format_column_value(&ColumnValue::Double(None)), "NULL");
}

#[test]
fn xml_passes_through_unquoted() {
    let v = ColumnValue::Xml(Some("<a/>".to_string()));
    assert_eq!(format_column_value(&v), "<a/>");
}

#[test]
fn time_renders_whole_seconds() {
    // 13:05:09 stored at scale 7: one tick per 100 nanoseconds.
    let secs: u64 = 13 * 3600 + 5 * 60 + 9;
    let t = TimeValue { increments: secs * 10_000_000, scale: 7 };
    assert_eq!(format_time(&Some(t)), "'13:05:09'");
    assert_eq!(format_time(&None), "NULL");
}

#[test]
fn date_day_zero_is_year_one() {
    assert_eq!(format_date(&Some(DateValue { days: 0 })), "'0001-01-01'");
}

#[test]
fn date_offset_matches_the_calendar() {
    let date = NaiveDate::from_ymd_opt(2023, 5, 15).unwrap();
    let d = DateValue { days: days_from_year_one(date) };
    assert_eq!(format_date(&Some(d)), "'2023-05-15'");
}

#[test]
fn datetime_counts_from_1900_in_ticks_of_a_third_of_a_second() {
    // 300 ticks are one second.
    let d = DateTimeValue { days: 0, seconds_fragments: 300 };
    assert_eq!(format_datetime(&Some(d)), "'1900-01-01 00:00:01'");
    let date = NaiveDate::from_ymd_opt(1999, 12, 31).unwrap();
    let later = DateTimeValue {
        days: days_from_1900(date),
        seconds_fragments: (23 * 3600 + 59 * 60 + 58) * 300,
    };
    assert_eq!(format_datetime(&Some(later)), "'1999-12-31 23:59:58'");
}

#[test]
fn small_datetime_renders_minutes_since_midnight() {
    // 630 whole minutes since midnight are 10:30, with no seconds stored.
    let d = SmallDateTimeValue { days: 0, minutes: 630 };
    assert_eq!(format_small_datetime(&Some(d)), "'1900-01-01 10:30:00'");
    let last = SmallDateTimeValue { days: 1, minutes: 1439 };
    assert_eq!(format_small_datetime(&Some(last)), "'1900-01-02 23:59:00'");
    assert_eq!(format_small_datetime(&None), "NULL");
}

#[test]
fn datetime_reaches_back_before_1900() {
    let d = DateTimeValue { days: -1, seconds_fragments: 0 };
    assert_eq!(format_datetime(&Some(d)), "'1899-12-31 00:00:00'");
    let earliest = NaiveDate::from_ymd_opt(1753, 1, 1).unwrap();
    let floor = DateTimeValue { days: days_from_1900(earliest), seconds_fragments: 300 };
    assert_eq!(format_datetime(&Some(floor)), "'1753-01-01 00:00:01'");
}

#[test]
fn datetime2_combines_year_one_date_with_scaled_time() {
    let date = NaiveDate::from_ymd_opt(2021, 8, 9).unwrap();
    let secs: u64 = 7 * 3600 + 6 * 60 + 5;
    let d = DateTime2Value {
        date: DateValue { days: days_from_year_one(date) },
        time: TimeValue { increments: secs * 10_000_000, scale: 7 },
    };
    assert_eq!(format_datetime2(&Some(d)), "'2021-08-09 07:06:05'");
}

#[test]
fn datetime_offset_subtracts_the_offset_and_labels_utc() {
    let date = NaiveDate::from_ymd_opt(2020, 1, 1).unwrap();
    let secs: u64 = 10 * 3600 + 30 * 60;
    let d = DateTimeOffsetValue {
        datetime2: DateTime2Value {
            date: DateValue { days: days_from_year_one(date) },
            time: TimeValue { increments: secs, scale: 0 },
        },
        offset_minutes: 60,
    };
    assert_eq!(
        format_datetime_offset(&Some(d)),
        "'2020-01-01 09:30:00 +0000'"
    );
}

#[test]
fn datetime_offset_wraps_time_of_day_without_moving_the_date() {
    let date = NaiveDate::from_ymd_opt(2020, 1, 1).unwrap();
    let d = DateTimeOffsetValue {
        datetime2: DateTime2Value {
            date: DateValue { days: days_from_year_one(date) },
            time: TimeValue { increments: 10 * 60, scale: 0 },
        },
        offset_minutes: 60,
    };
    assert_eq!(
        format_datetime_offset(&Some(d)),
        "'2020-01-01 23:10:00 +0000'"
    );
}

#[test]
fn row_values_render_in_column_order() {
    let row = vec![
        ColumnValue::Int(Some(1)),
        ColumnValue::Text(Some("x".to_string())),
        ColumnValue::Text(None),
    ];
    let rendered = format_row_values(&row);
    assert_eq!(rendered, vec!["1", "'x'", "NULL"]);
}
