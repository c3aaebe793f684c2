//! End-to-end tests: decoding whole rows against the canonical layout,
//! aggregating a run, planning an import from raw rows and from file text,
//! and the load schedule's ordering and idempotence, observed on a mock sink.

use counter_import::aggregate::{aggregate, distinct_dates};
use counter_import::counts::{AggregatedCount, CountError, Date, ImportError, IndividualCount};
use counter_import::decode::decode_row;
use counter_import::layout::{canonical_layout, expected_header, ROW_WIDTH};
use counter_import::pipeline::{plan_import, plan_import_text};
use counter_import::plan::{plan_ops, LoadPlan, SinkOp};

/// A data row of the canonical width: the timestamp, then every count field
/// empty.
fn empty_row(timestamp: &str) -> Vec<String> {
    let mut row = vec![String::new(); ROW_WIDTH];
    row[0] = timestamp.to_owned();
    row
}

/// Fill one station's slice, starting at its total column.
fn set_slice(row: &mut Vec<String>, start: usize, values: &[i32]) {
    for (i, v) in values.iter().enumerate() {
        row[start + i] = v.to_string();
    }
}

/// A row with station A (location 16, columns 1 through 5) filled.
fn station_a_row(timestamp: &str) -> Vec<String> {
    let mut row = empty_row(timestamp);
    set_slice(&mut row, 1, &[10, 3, 2, 4, 1]);
    row
}

fn may_6(hour: u32, minute: u32) -> counter_import::counts::Timestamp {
    counter_import::counts::Timestamp { date: Date { year: 2023, month: 5, day: 6 }, hour, minute }
}

#[test]
fn decode_row_parses_the_fixed_timestamp_format() {
    let layout = canonical_layout();
    let (ts, _) = decode_row(&station_a_row("May 6, 2023 12:30 PM"), &layout).unwrap();
    assert_eq!(ts, may_6(12, 30));
    let (ts, _) = decode_row(&station_a_row("May 6, 2023 12:30 AM"), &layout).unwrap();
    assert_eq!(ts, may_6(0, 30));
    let (ts, _) = decode_row(&station_a_row("Dec 31, 2023 11:45 PM"), &layout).unwrap();
    assert_eq!(ts.date, Date { year: 2023, month: 12, day: 31 });
    assert_eq!((ts.hour, ts.minute), (23, 45));
}

#[test]
fn decode_row_yields_one_count_per_layout_entry() {
    let layout = canonical_layout();
    let (_, counts) = decode_row(&station_a_row("May 6, 2023 12:30 PM"), &layout).unwrap();
    assert_eq!(counts.len(), layout.entries.len());
    assert_eq!(counts.len(), 20);
}

#[test]
fn decode_row_maps_station_a_slice() {
    let layout = canonical_layout();
    let (ts, counts) = decode_row(&station_a_row("May 6, 2023 12:30 PM"), &layout).unwrap();
    let c = &counts[0];
    assert_eq!(c.location_id, 16);
    assert_eq!(c.datetime, ts);
    assert_eq!(c.total, Some(10));
    assert_eq!(c.ped_in, Some(3));
    assert_eq!(c.ped_out, Some(2));
    assert_eq!(c.bike_in, Some(4));
    assert_eq!(c.bike_out, Some(1));
}

#[test]
fn decode_row_keeps_empty_fields_absent_not_zero() {
    let layout = canonical_layout();
    let (_, counts) = decode_row(&station_a_row("May 6, 2023 12:30 PM"), &layout).unwrap();
    // Every other station's columns are empty: absent, never zero.
    for c in &counts[1..] {
        assert_eq!(c.total, None);
        assert_eq!(c.ped_in, None);
        assert_eq!(c.ped_out, None);
        assert_eq!(c.bike_in, None);
        assert_eq!(c.bike_out, None);
    }
}

#[test]
fn decode_row_rejects_a_bad_timestamp() {
    let layout = canonical_layout();
    assert_eq!(
        decode_row(&empty_row("2023-05-06 12:30"), &layout),
        Err(ImportError::Parse)
    );
    assert_eq!(
        decode_row(&empty_row("Feb 30, 2023 1:00 AM"), &layout),
        Err(ImportError::Parse)
    );
}

#[test]
fn decode_row_rejects_a_row_of_the_wrong_width() {
    let layout = canonical_layout();
    let mut short = station_a_row("May 6, 2023 12:30 PM");
    short.pop();
    assert_eq!(
        decode_row(&short, &layout),
        Err(ImportError::Layout(CountError::UnexpectedArity))
    );
    let mut long = station_a_row("May 6, 2023 12:30 PM");
    long.push(String::new());
    assert_eq!(
        decode_row(&long, &layout),
        Err(ImportError::Layout(CountError::UnexpectedArity))
    );
}

fn find_rollup(aggs: &[AggregatedCount], loc: i32, date: Date) -> &AggregatedCount {
    aggs.iter().find(|a| a.location_id == loc && a.date == date).unwrap()
}

#[test]
fn aggregate_rolls_one_reading_up() {
    let layout = canonical_layout();
    let (_, counts) = decode_row(&station_a_row("May 6, 2023 12:30 PM"), &layout).unwrap();
    let aggs = aggregate(&counts);
    assert_eq!(aggs.len(), 20);
    let a = find_rollup(&aggs, 16, Date { year: 2023, month: 5, day: 6 });
    assert_eq!(a.total, Some(10));
    assert_eq!(a.total_ped, Some(5));
    assert_eq!(a.total_bike, Some(5));
}

#[test]
fn aggregate_keeps_all_absent_days_absent() {
    let layout = canonical_layout();
    let (_, counts) = decode_row(&station_a_row("May 6, 2023 12:30 PM"), &layout).unwrap();
    let aggs = aggregate(&counts);
    // A station with every field empty aggregates to absent, not zero.
    let a = find_rollup(&aggs, 1, Date { year: 2023, month: 5, day: 6 });
    assert_eq!(a.total, None);
    assert_eq!(a.total_ped, None);
    assert_eq!(a.total_bike, None);
}

#[test]
fn aggregate_sums_a_day_across_rows_with_absents_absorbed() {
    let layout = canonical_layout();
    let mut row1 = empty_row("May 6, 2023 12:30 PM");
    set_slice(&mut row1, 1, &[10, 3, 2, 4, 1]);
    let mut row2 = empty_row("May 6, 2023 12:45 PM");
    // ped_in empty this quarter-hour; the present ped_out still counts.
    set_slice(&mut row2, 1, &[7]);
    row2[3] = "6".to_owned();
    let (_, mut counts) = decode_row(&row1, &layout).unwrap();
    let (_, mut more) = decode_row(&row2, &layout).unwrap();
    counts.append(&mut more);
    let aggs = aggregate(&counts);
    let a = find_rollup(&aggs, 16, Date { year: 2023, month: 5, day: 6 });
    assert_eq!(a.total, Some(17));
    assert_eq!(a.total_ped, Some(11));
    assert_eq!(a.total_bike, Some(5));
}

#[test]
fn aggregate_splits_days_and_stations() {
    let layout = canonical_layout();
    let mut row1 = station_a_row("May 6, 2023 11:45 PM");
    set_slice(&mut row1, 46, &[20, 0, 0]);
    let row2 = station_a_row("May 7, 2023 12:00 AM");
    let (_, mut counts) = decode_row(&row1, &layout).unwrap();
    let (_, mut more) = decode_row(&row2, &layout).unwrap();
    counts.append(&mut more);
    let aggs = aggregate(&counts);
    // one rollup per station per day
    assert_eq!(aggs.len(), 40);
    let d6 = Date { year: 2023, month: 5, day: 6 };
    let d7 = Date { year: 2023, month: 5, day: 7 };
    assert_eq!(find_rollup(&aggs, 16, d6).total, Some(10));
    assert_eq!(find_rollup(&aggs, 16, d7).total, Some(10));
    assert_eq!(find_rollup(&aggs, 24, d6).total, Some(20));
    assert_eq!(find_rollup(&aggs, 24, d6).total_bike, Some(0));
    assert_eq!(find_rollup(&aggs, 24, d6).total_ped, None);
    assert_eq!(find_rollup(&aggs, 24, d7).total, None);
}

#[test]
fn distinct_dates_deduplicates() {
    let d6 = Date { year: 2023, month: 5, day: 6 };
    let d7 = Date { year: 2023, month: 5, day: 7 };
    let dates = vec![d6, d6, d7, d6, d7];
    let distinct = distinct_dates(&dates);
    assert_eq!(distinct.len(), 2);
    assert!(distinct.contains(&d6));
    assert!(distinct.contains(&d7));
    assert!(distinct_dates(&Vec::new()).is_empty());
}

/// A run's raw rows: the export's metadata line, the header, then data rows.
fn raw_rows(data: &[Vec<String>]) -> Vec<Vec<String>> {
    let mut rows = vec![vec!["metadata line".to_owned()], expected_header()];
    rows.extend_from_slice(data);
    rows
}

#[test]
fn plan_import_decodes_rows_times_entries_records() {
    let layout = canonical_layout();
    let rows = raw_rows(&[
        station_a_row("May 6, 2023 12:30 PM"),
        station_a_row("May 6, 2023 12:45 PM"),
        station_a_row("May 7, 2023 12:00 AM"),
    ]);
    let plan = plan_import(&rows, &layout).unwrap();
    assert_eq!(plan.individual.len(), 3 * 20);
    assert_eq!(plan.dates.len(), 2);
    assert_eq!(plan.aggregated.len(), 2 * 20);
}

#[test]
fn plan_import_rejects_a_header_off_by_one_field_before_any_row() {
    let layout = canonical_layout();
    let mut rows = raw_rows(&[station_a_row("May 6, 2023 12:30 PM")]);
    rows[1][1] = "Bartram Garden".to_owned();
    // Even the data row's timestamp being malformed changes nothing: the
    // header is rejected first and no row is decoded, no sink op planned.
    rows[2][0] = "not a timestamp".to_owned();
    assert_eq!(plan_import(&rows, &layout), Err(ImportError::HeaderMismatch));
    assert_eq!(plan_import(&Vec::new(), &layout), Err(ImportError::HeaderMismatch));
    assert_eq!(
        plan_import(&vec![vec!["metadata line".to_owned()]], &layout),
        Err(ImportError::HeaderMismatch)
    );
}

#[test]
fn plan_import_propagates_the_first_row_failure() {
    let layout = canonical_layout();
    let rows = raw_rows(&[
        station_a_row("May 6, 2023 12:30 PM"),
        station_a_row("nonsense"),
    ]);
    assert_eq!(plan_import(&rows, &layout), Err(ImportError::Parse));
}

/// Serialize rows as the export file's text, quoting the timestamp field,
/// which holds commas.
fn rows_to_text(rows: &[Vec<String>]) -> String {
    let mut text = String::new();
    for row in rows {
        let mut first = true;
        for field in row {
            if !first {
                text.push(',');
            }
            first = false;
            if field.contains(',') {
                text.push('"');
                text.push_str(field);
                text.push('"');
            } else {
                text.push_str(field);
            }
        }
        text.push('\n');
    }
    text
}

#[test]
fn plan_import_text_reads_the_file_text() {
    let layout = canonical_layout();
    let rows = raw_rows(&[station_a_row("May 6, 2023 12:30 PM")]);
    let plan = plan_import_text(&rows_to_text(&rows), &layout).unwrap();
    assert_eq!(plan.individual.len(), 20);
    assert_eq!(plan.dates, vec![Date { year: 2023, month: 5, day: 6 }]);
    let a = find_rollup(&plan.aggregated, 16, Date { year: 2023, month: 5, day: 6 });
    assert_eq!(a.total, Some(10));
    assert_eq!(a.total_ped, Some(5));
    assert_eq!(a.total_bike, Some(5));
    assert_eq!(plan.individual[0].ped_in, Some(3));
}

#[test]
fn plan_import_text_rejects_a_drifted_header() {
    let layout = canonical_layout();
    let mut rows = raw_rows(&[station_a_row("May 6, 2023 12:30 PM")]);
    rows[1][97] = "Extra".to_owned();
    assert_eq!(
        plan_import_text(&rows_to_text(&rows), &layout),
        Err(ImportError::HeaderMismatch)
    );
}

/// A mock of the sink: the rows each store holds, and the commits seen.
#[derive(Clone, PartialEq, Debug)]
struct MockSink {
    individual: Vec<IndividualCount>,
    aggregated: Vec<AggregatedCount>,
    commits: usize,
}

impl MockSink {
    fn new() -> Self {
        MockSink { individual: Vec::new(), aggregated: Vec::new(), commits: 0 }
    }

    fn apply(&mut self, op: &SinkOp) {
        match op {
            SinkOp::DeleteIndividualByDate(d) => self.individual.retain(|c| c.datetime.date != *d),
            SinkOp::DeleteAggregatedByDate(d) => self.aggregated.retain(|a| a.date != *d),
            SinkOp::InsertIndividual(c) => self.individual.push(c.clone()),
            SinkOp::InsertAggregated(a) => self.aggregated.push(a.clone()),
            SinkOp::Commit => self.commits += 1,
        }
    }

    fn run(&mut self, plan: &LoadPlan) {
        for op in &plan_ops(plan) {
            self.apply(op);
        }
    }
}

#[test]
fn no_insert_is_scheduled_before_all_deletes() {
    let layout = canonical_layout();
    let rows = raw_rows(&[
        station_a_row("May 6, 2023 12:30 PM"),
        station_a_row("May 7, 2023 12:30 PM"),
    ]);
    let plan = plan_import(&rows, &layout).unwrap();
    let ops = plan_ops(&plan);
    let mut insert_seen = false;
    let mut deletes_before_first_insert = 0;
    let mut deletes_total = 0;
    for op in &ops {
        let is_delete = matches!(
            op,
            SinkOp::DeleteIndividualByDate(_) | SinkOp::DeleteAggregatedByDate(_)
        );
        let is_insert = matches!(op, SinkOp::InsertIndividual(_) | SinkOp::InsertAggregated(_));
        if is_insert {
            insert_seen = true;
        }
        if is_delete {
            assert!(!insert_seen, "a delete was scheduled after an insert");
            deletes_before_first_insert += 1;
            deletes_total += 1;
        }
    }
    assert!(insert_seen);
    assert_eq!(deletes_total, 2 * plan.dates.len());
    assert_eq!(deletes_before_first_insert, deletes_total);
}

#[test]
fn plan_schedules_commits_per_date_and_per_insert_phase() {
    let layout = canonical_layout();
    let rows = raw_rows(&[
        station_a_row("May 6, 2023 12:30 PM"),
        station_a_row("May 7, 2023 12:30 PM"),
    ]);
    let plan = plan_import(&rows, &layout).unwrap();
    let mut sink = MockSink::new();
    sink.run(&plan);
    assert_eq!(sink.commits, plan.dates.len() + 2);
}

#[test]
fn reimport_leaves_the_sink_exactly_as_one_import_does() {
    let layout = canonical_layout();
    let rows = raw_rows(&[
        station_a_row("May 6, 2023 12:30 PM"),
        station_a_row("May 6, 2023 12:45 PM"),
        station_a_row("May 7, 2023 12:00 AM"),
    ]);
    // The sink already holds rows for one of the incoming dates.
    let stale = plan_import(&raw_rows(&[station_a_row("May 6, 2023 1:00 AM")]), &layout).unwrap();
    let mut sink = MockSink::new();
    sink.run(&stale);
    assert_eq!(sink.individual.len(), 20);

    let plan = plan_import(&rows, &layout).unwrap();
    sink.run(&plan);
    let after_one = (sink.individual.clone(), sink.aggregated.clone());
    // No stale row for May 6 survived; exactly the run's rows are present.
    assert_eq!(sink.individual.len(), plan.individual.len());
    assert_eq!(sink.aggregated.len(), plan.aggregated.len());

    // Reimporting the same file changes nothing.
    let plan_again = plan_import(&rows, &layout).unwrap();
    sink.run(&plan_again);
    assert_eq!((sink.individual, sink.aggregated), after_one);
}

#[test]
fn two_runs_on_the_same_file_yield_identical_rollup_sets() {
    let layout = canonical_layout();
    let rows = raw_rows(&[
        station_a_row("May 6, 2023 12:30 PM"),
        station_a_row("May 7, 2023 12:30 PM"),
    ]);
    let a = plan_import(&rows, &layout).unwrap().aggregated;
    let b = plan_import(&rows, &layout).unwrap().aggregated;
    assert_eq!(a.len(), b.len());
    for x in &a {
        assert!(b.contains(x));
    }
    for x in &b {
        assert!(a.contains(x));
    }
}
