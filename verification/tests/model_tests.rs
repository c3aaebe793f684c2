//! Tests of the data model: the absent-absorbing addition, per-station slice
//! decoding, the number parser, and the layout table.

use counter_import::counts::{
    nullable_sum, AggregatedCount, CountError, Date, ImportError, IndividualCount, Timestamp,
};
use counter_import::decode::parse_count;
use counter_import::layout::{canonical_layout, expected_header, validate_header, ROW_WIDTH};

fn ts(year: i32, month: u32, day: u32, hour: u32, minute: u32) -> Timestamp {
    Timestamp { date: Date { year, month, day }, hour, minute }
}

#[test]
fn nullable_sum_absent_absent_is_absent() {
    assert_eq!(nullable_sum(None, None), None);
}

#[test]
fn nullable_sum_absent_absorbs_into_present() {
    assert_eq!(nullable_sum(None, Some(5)), Some(5));
    assert_eq!(nullable_sum(Some(5), None), Some(5));
}

#[test]
fn nullable_sum_present_adds() {
    assert_eq!(nullable_sum(Some(3), Some(4)), Some(7));
    assert_eq!(nullable_sum(Some(-3), Some(4)), Some(1));
}

#[test]
fn new_count_five_columns_maps_fields() {
    let counts = [Some(10), Some(3), Some(2), Some(4), Some(1)];
    let c = IndividualCount::new(16, ts(2023, 5, 6, 12, 30), &counts, true, true).unwrap();
    assert_eq!(c.location_id, 16);
    assert_eq!(c.total, Some(10));
    assert_eq!(c.ped_in, Some(3));
    assert_eq!(c.ped_out, Some(2));
    assert_eq!(c.bike_in, Some(4));
    assert_eq!(c.bike_out, Some(1));
}

#[test]
fn new_count_three_columns_fills_the_flagged_pair() {
    let counts = [Some(9), Some(7), Some(8)];
    let c = IndividualCount::new(24, ts(2023, 5, 6, 0, 0), &counts, false, true).unwrap();
    assert_eq!(c.total, Some(9));
    assert_eq!(c.ped_in, None);
    assert_eq!(c.ped_out, None);
    assert_eq!(c.bike_in, Some(7));
    assert_eq!(c.bike_out, Some(8));
    let c = IndividualCount::new(24, ts(2023, 5, 6, 0, 0), &counts, true, false).unwrap();
    assert_eq!(c.ped_in, Some(7));
    assert_eq!(c.ped_out, Some(8));
    assert_eq!(c.bike_in, None);
    assert_eq!(c.bike_out, None);
}

#[test]
fn new_count_five_columns_without_both_flags_is_too_many() {
    let counts = [Some(1), Some(1), Some(1), Some(1), Some(1)];
    let t = ts(2023, 5, 6, 0, 0);
    assert_eq!(IndividualCount::new(1, t, &counts, false, false), Err(CountError::TooMany));
    assert_eq!(IndividualCount::new(1, t, &counts, true, false), Err(CountError::TooMany));
    assert_eq!(IndividualCount::new(1, t, &counts, false, true), Err(CountError::TooMany));
}

#[test]
fn new_count_three_columns_without_exactly_one_flag_is_too_few() {
    let counts = [Some(1), Some(1), Some(1)];
    let t = ts(2023, 5, 6, 0, 0);
    assert_eq!(IndividualCount::new(1, t, &counts, true, true), Err(CountError::TooFew));
    assert_eq!(IndividualCount::new(1, t, &counts, false, false), Err(CountError::TooFew));
}

#[test]
fn new_count_other_spans_are_unexpected_arity() {
    let t = ts(2023, 5, 6, 0, 0);
    assert_eq!(
        IndividualCount::new(1, t, &[Some(1), Some(1), Some(1), Some(1)], true, true),
        Err(CountError::UnexpectedArity)
    );
    assert_eq!(IndividualCount::new(1, t, &[], true, true), Err(CountError::UnexpectedArity));
    assert_eq!(
        IndividualCount::new(1, t, &[Some(1), Some(1)], false, true),
        Err(CountError::UnexpectedArity)
    );
}

#[test]
fn aggregated_count_new_keeps_fields() {
    let a = AggregatedCount::new(4, Date { year: 2023, month: 5, day: 6 }, Some(5), Some(5), Some(10));
    assert_eq!(a.location_id, 4);
    assert_eq!(a.date, Date { year: 2023, month: 5, day: 6 });
    assert_eq!(a.total_ped, Some(5));
    assert_eq!(a.total_bike, Some(5));
    assert_eq!(a.total, Some(10));
}

#[test]
fn error_messages_name_the_failure() {
    assert_eq!(CountError::TooFew.message(), "misconfiguration of count: expected more fields");
    assert_eq!(CountError::TooMany.message(), "misconfiguration of count: expected fewer fields");
    assert_eq!(
        CountError::UnexpectedArity.message(),
        "expected 3 or 5 fields, got a different amount"
    );
    assert_eq!(ImportError::Parse.message(), "could not parse the file");
    assert_eq!(ImportError::HeaderMismatch.message(), "header does not match expected header");
    assert_eq!(
        ImportError::Layout(CountError::TooFew).message(),
        CountError::TooFew.message()
    );
}

#[test]
fn parse_count_reads_signed_decimals() {
    assert_eq!(parse_count("42"), Some(42));
    assert_eq!(parse_count("-7"), Some(-7));
    assert_eq!(parse_count("+5"), Some(5));
    assert_eq!(parse_count("0"), Some(0));
    assert_eq!(parse_count("007"), Some(7));
    assert_eq!(parse_count("2147483647"), Some(i32::MAX));
    assert_eq!(parse_count("-2147483648"), Some(i32::MIN));
}

#[test]
fn parse_count_rejects_what_is_not_a_count() {
    assert_eq!(parse_count(""), None);
    assert_eq!(parse_count("-"), None);
    assert_eq!(parse_count("+"), None);
    assert_eq!(parse_count("abc"), None);
    assert_eq!(parse_count("1.5"), None);
    assert_eq!(parse_count(" 1"), None);
    assert_eq!(parse_count("1 "), None);
    assert_eq!(parse_count("2147483648"), None);
    assert_eq!(parse_count("-2147483649"), None);
    assert_eq!(parse_count("99999999999999999999"), None);
}

#[test]
fn canonical_layout_partitions_the_row() {
    let layout = canonical_layout();
    assert_eq!(layout.entries.len(), 20);
    assert_eq!(layout.width, ROW_WIDTH);
    assert_eq!(ROW_WIDTH, 98);
    let mut next: usize = 1;
    for e in &layout.entries {
        assert_eq!(e.start, next);
        assert!(e.span == 3 || e.span == 5);
        assert_eq!(e.span == 5, e.has_ped && e.has_bike);
        assert_eq!(e.span == 3, e.has_ped != e.has_bike);
        next = e.start + e.span;
    }
    assert_eq!(next, ROW_WIDTH - 1);
}

#[test]
fn expected_header_has_one_field_per_column() {
    let h = expected_header();
    assert_eq!(h.len(), ROW_WIDTH);
    assert_eq!(h[0], "Time");
    assert_eq!(h[1], "Bartram's Garden");
    assert_eq!(h[97], "");
}

#[test]
fn validate_header_accepts_only_the_expected_header() {
    let good = expected_header();
    assert!(validate_header(&good));
    let mut one_field_off = expected_header();
    one_field_off[46] = "Pine St Bike Lanes".to_owned();
    assert!(!validate_header(&one_field_off));
    let mut truncated = expected_header();
    truncated.pop();
    assert!(!validate_header(&truncated));
    assert!(!validate_header(&Vec::new()));
}
