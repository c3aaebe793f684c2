//! The whole import of one export file: read its text as rows, check the
//! declared header against the expected one before touching any data row,
//! decode every data row, roll the counts up per day, and hand back the load
//! plan — or the failure that aborts the run with nothing loaded.

use vstd::prelude::*;

use crate::aggregate::{aggregate, aggregate_post, distinct_dates, lemma_reimport_same_rollups};
use crate::counts::{Date, ImportError};
use crate::decode::{decode_rows, lemma_decode_rows_dates_cover, rows_view, spec_decode_rows};
use crate::layout::{Layout, StationEntry, spec_expected_header, validate_header};
use crate::plan::LoadPlan;

verus! {

/// What the file's text reads as rows of fields, or nothing when the text is
/// not well-formed tabular text. The exact grammar is the reader's and is not
/// restated here; it is a function of the text alone.
pub uninterp spec fn csv_rows_of(s: Seq<char>) -> Option<Seq<Seq<Seq<char>>>>;

/// Relies on the csv crate's Reader, configured flexible and with no implicit
/// header row, over the text's bytes: which rows and fields a text holds is a
/// function of the text alone, and reading is infallible but for malformed
/// text.
#[verifier::external_body]
fn read_rows(content: &str) -> (r: Result<Vec<Vec<String>>, ImportError>)
    ensures
        r is Ok <==> csv_rows_of(content@) is Some,
        r matches Ok(rows) ==> rows_view(rows) == csv_rows_of(content@)->Some_0,
        r matches Err(e) ==> e == ImportError::Parse,
{
    let mut rdr = csv::ReaderBuilder::new().flexible(true).has_headers(false).from_reader(
        content.as_bytes(),
    );
    let mut out: Vec<Vec<String>> = Vec::new();
    for record in rdr.records() {
        match record {
            Ok(rec) => out.push(rec.iter().map(|f| f.to_string()).collect()),
            Err(_) => return Err(ImportError::Parse),
        }
    }
    Ok(out)
}

/// What planning an import from raw rows yields. Row 0 is the export's
/// metadata line and is skipped; row 1 must equal the expected header, field
/// for field, before any data row is looked at; the rows after it are decoded
/// and rolled up.
pub open spec fn plan_import_post(
    rows: Seq<Seq<Seq<char>>>,
    entries: Seq<StationEntry>,
    width: int,
    r: Result<LoadPlan, ImportError>,
) -> bool {
    if rows.len() < 2 || rows[1] != spec_expected_header() {
        r == Result::<LoadPlan, ImportError>::Err(ImportError::HeaderMismatch)
    } else {
        match spec_decode_rows(rows.skip(2), entries, width) {
            Result::Err(e) => r == Result::<LoadPlan, ImportError>::Err(e),
            Result::Ok(decoded) => {
                &&& r is Ok
                &&& r->Ok_0.individual@ == decoded.1
                &&& aggregate_post(decoded.1, r->Ok_0.aggregated@)
                &&& r->Ok_0.dates@.no_duplicates()
                &&& (forall|d: Date| r->Ok_0.dates@.contains(d) <==> decoded.0.contains(d))
            },
        }
    }
}

/// Planning the same rows twice plans the same import: the same failure, or
/// the same readings in the same order, the same set of daily rollups, and
/// the same set of dates to purge. Against a reset sink, a reimport of the
/// same file therefore loads identical data.
pub proof fn lemma_rerun_plans_alike(
    rows: Seq<Seq<Seq<char>>>,
    entries: Seq<StationEntry>,
    width: int,
    r1: Result<LoadPlan, ImportError>,
    r2: Result<LoadPlan, ImportError>,
)
    requires
        plan_import_post(rows, entries, width, r1),
        plan_import_post(rows, entries, width, r2),
    ensures
        r1 is Err ==> r2 == r1,
        r1 matches Ok(p1) ==> r2 matches Ok(p2) && p1.individual@ == p2.individual@
            && p1.aggregated@.to_set() == p2.aggregated@.to_set() && p1.dates@.to_set()
            == p2.dates@.to_set(),
{
    if !(rows.len() < 2 || rows[1] != spec_expected_header()) && r1 is Ok {
        assert(spec_decode_rows(rows.skip(2), entries, width) is Ok);
        let decoded = spec_decode_rows(rows.skip(2), entries, width)->Ok_0;
        assert(r2 is Ok);
        let p1 = r1->Ok_0;
        let p2 = r2->Ok_0;
        lemma_reimport_same_rollups(decoded.1, p1.aggregated@, p2.aggregated@);
        assert forall|d: Date| p1.dates@.to_set().contains(d) == p2.dates@.to_set().contains(
            d,
        ) by {
            assert(p1.dates@.contains(d) <==> decoded.0.contains(d));
            assert(p2.dates@.contains(d) <==> decoded.0.contains(d));
            assert(p1.dates@.to_set().contains(d) == p1.dates@.contains(d));
            assert(p2.dates@.to_set().contains(d) == p2.dates@.contains(d));
        }
        assert(p1.dates@.to_set() =~= p2.dates@.to_set());
    }
}

/// Plan one run from its raw rows: validate the header, decode the data rows,
/// collect the distinct dates and the daily rollups. A failure of any step
/// aborts the run before anything would touch the sink.
pub fn plan_import(rows: &Vec<Vec<String>>, layout: &Layout) -> (r: Result<LoadPlan, ImportError>)
    requires
        layout.wf(),
    ensures
        plan_import_post(rows_view(*rows), layout.entries@, layout.width as int, r),
        r matches Ok(p) ==> p.wf(),
{
    let ghost rview = rows_view(*rows);
    if rows.len() < 2 {
        return Err(ImportError::HeaderMismatch);
    }
    if !validate_header(&rows[1]) {
        assert(rview[1] != spec_expected_header());
        return Err(ImportError::HeaderMismatch);
    }
    assert(rview[1] == spec_expected_header());
    let (dates_raw, counts) = match decode_rows(rows, 2, layout) {
        Ok(v) => v,
        Err(e) => {
            return Err(e);
        },
    };
    let aggregated = aggregate(&counts);
    let dates = distinct_dates(&dates_raw);
    proof {
        lemma_decode_rows_dates_cover(rview.skip(2), layout.entries@, layout.width as int);
    }
    let plan = LoadPlan { dates, individual: counts, aggregated };
    proof {
        assert forall|j: int| 0 <= j < plan.aggregated@.len() implies plan.dates@.contains(
            (#[trigger] plan.aggregated@[j]).date,
        ) by {
            let cj = choose|cj: int|
                0 <= cj < plan.individual@.len() && plan.aggregated@[j].location_id == (
                #[trigger] plan.individual@[cj]).location_id && plan.aggregated@[j].date
                    == plan.individual@[cj].datetime.date;
            assert(dates_raw@.contains(plan.individual@[cj].datetime.date));
        }
    }
    Ok(plan)
}

/// Plan one run from the export file's whole text. The text is read as rows
/// once, before any write could happen: the store is never touched
/// by a file that fails to parse, to validate, or to decode.
pub fn plan_import_text(content: &str, layout: &Layout) -> (r: Result<LoadPlan, ImportError>)
    requires
        layout.wf(),
    ensures
        csv_rows_of(content@) is None ==> r == Result::<LoadPlan, ImportError>::Err(
            ImportError::Parse,
        ),
        csv_rows_of(content@) matches Some(rows) ==> plan_import_post(
            rows,
            layout.entries@,
            layout.width as int,
            r,
        ),
        r matches Ok(p) ==> p.wf(),
{
    let rows = match read_rows(content) {
        Ok(v) => v,
        Err(e) => {
            return Err(e);
        },
    };
    plan_import(&rows, layout)
}

} // verus!
