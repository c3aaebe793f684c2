//! Row decoding: parse the timestamp and the numeric fields of one raw row,
//! then slice the row per station layout entry into individual counts.

use vstd::prelude::*;
use vstd::slice::slice_subrange;

use chrono::{Datelike, Timelike};

use crate::counts::{CountError, Date, ImportError, IndividualCount, Timestamp, spec_new_count};
use crate::layout::{Layout, StationEntry};

verus! {

/// The characters of a string as a vector, for indexed scanning.
fn to_chars(s: &str) -> (r: Vec<char>)
    ensures
        r@ == s@,
{
    let mut v: Vec<char> = Vec::new();
    for c in it: s.chars()
        invariant
            v@ =~= it.seq().take(it.index()),
            it.seq() == s@,
    {
        v.push(c);
    }
    assert(v@ =~= s@);
    v
}

pub open spec fn is_digit(c: char) -> bool {
    '0' <= c && c <= '9'
}

pub open spec fn digit_val(c: char) -> int {
    c as int - '0' as int
}

pub open spec fn all_digits(s: Seq<char>) -> bool {
    forall|i: int| 0 <= i < s.len() ==> is_digit(#[trigger] s[i])
}

/// The value of a non-empty digit string read in base ten.
pub open spec fn digits_val(s: Seq<char>) -> int
    decreases s.len(),
{
    if s.len() == 0 {
        0
    } else {
        digits_val(s.drop_last()) * 10 + digit_val(s.last())
    }
}

/// What a count field means as an unbounded integer: an optional single sign
/// followed by one or more decimal digits and nothing else; anything else is
/// absent.
pub open spec fn spec_parse_int(s: Seq<char>) -> Option<int> {
    let neg = s.len() > 0 && s[0] == '-';
    let signed = s.len() > 0 && (s[0] == '-' || s[0] == '+');
    let digits = if signed {
        s.drop_first()
    } else {
        s
    };
    if digits.len() > 0 && all_digits(digits) {
        if neg {
            Option::Some(-digits_val(digits))
        } else {
            Option::Some(digits_val(digits))
        }
    } else {
        Option::None
    }
}

/// What a count field means as a machine integer: the integer it spells, or
/// absent when it spells none or one that does not fit.
pub open spec fn spec_parse_count(s: Seq<char>) -> Option<i32> {
    match spec_parse_int(s) {
        Option::Some(n) => if i32::MIN <= n <= i32::MAX {
            Option::Some(n as i32)
        } else {
            Option::None
        },
        Option::None => Option::None,
    }
}

/// A digit string's value only grows as more digits follow.
proof fn lemma_digits_val_bounds(s: Seq<char>)
    requires
        all_digits(s),
    ensures
        digits_val(s) >= 0,
        s.len() > 0 ==> digits_val(s) >= digits_val(s.drop_last()),
    decreases s.len(),
{
    if s.len() > 0 {
        assert(is_digit(s.last()));
        lemma_digits_val_bounds(s.drop_last());
    }
}

/// Parse one numeric count field. An empty or unparseable field is absent,
/// never zero. Matches standard signed-decimal parsing, including rejection
/// of values outside the 32-bit range; this step never fails a run.
pub fn parse_count(s: &str) -> (r: Option<i32>)
    ensures
        r == spec_parse_count(s@),
{
    let cs = to_chars(s);
    let signed: bool = cs.len() > 0 && (cs[0] == '-' || cs[0] == '+');
    let neg: bool = cs.len() > 0 && cs[0] == '-';
    let start: usize = if signed {
        1
    } else {
        0
    };
    let ghost digits = if signed {
        s@.drop_first()
    } else {
        s@
    };
    if cs.len() == start {
        assert(digits.len() == 0);
        return None;
    }
    let n = cs.len();
    let mut acc: i64 = 0;
    let mut over: bool = false;
    let mut i: usize = start;
    while i < n
        invariant
            start <= i <= n,
            n == cs@.len(),
            cs@ == s@,
            signed == (s@.len() > 0 && (s@[0] == '-' || s@[0] == '+')),
            start == if signed { 1int } else { 0int },
            digits == if signed { s@.drop_first() } else { s@ },
            forall|j: int| start <= j < i ==> is_digit(#[trigger] cs@[j]),
            !over ==> acc == digits_val(s@.subrange(start as int, i as int)) && 0 <= acc
                <= 0x8000_0000,
            over ==> digits_val(s@.subrange(start as int, i as int)) > 0x8000_0000,
            over ==> all_digits(s@.subrange(start as int, i as int)),
        decreases n - i,
    {
        let c = cs[i];
        if !('0' <= c && c <= '9') {
            assert(!is_digit(digits[i - start as int]));
            return None;
        }
        let d: u32 = (c as u32) - ('0' as u32);
        assert(d == digit_val(cs@[i as int])) by {
            assert(is_digit(cs@[i as int]));
        }
        proof {
            assert(s@.subrange(start as int, i + 1).drop_last() =~= s@.subrange(
                start as int,
                i as int,
            ));
            assert(s@.subrange(start as int, i + 1).last() == cs@[i as int]);
        }
        if over {
            proof {
                let pre = s@.subrange(start as int, i as int);
                let ext = s@.subrange(start as int, i + 1);
                assert(digits_val(ext) == digits_val(pre) * 10 + digit_val(cs@[i as int]));
                assert(digits_val(ext) > 0x8000_0000);
            }
        } else {
            let next: i64 = acc * 10 + d as i64;
            if next > 0x8000_0000 {
                over = true;
            } else {
                acc = next;
            }
        }
        i += 1;
    }
    proof {
        assert(s@.subrange(start as int, n as int) =~= digits);
        assert(all_digits(digits));
        assert(digits.len() > 0);
    }
    if over {
        proof {
            lemma_digits_val_bounds(digits);
        }
        return None;
    }
    if neg {
        if acc == 0x8000_0000 {
            return Some(i32::MIN);
        }
        return Some(-(acc as i32));
    }
    if acc >= 0x8000_0000 {
        return None;
    }
    Some(acc as i32)
}

/// What the timestamp text of a row parses to — year, month, day, hour,
/// minute — or nothing when it is not a well-formed timestamp. The exact
/// language is the fixed export format's and is not restated here; it is a
/// function of the text alone.
pub uninterp spec fn parsed_timestamp(s: Seq<char>) -> Option<(i32, u32, u32, u32, u32)>;

/// The timestamp a row's first field parses to, as a plain value.
pub open spec fn spec_timestamp_of(t: (i32, u32, u32, u32, u32)) -> Timestamp {
    Timestamp { date: Date { year: t.0, month: t.1, day: t.2 }, hour: t.3, minute: t.4 }
}

/// Relies on chrono's NaiveDateTime::parse_from_str with the fixed format
/// "%b %e, %Y %l:%M %p" (abbreviated month name, day, 4-digit year,
/// 12-hour:minute, AM/PM): whether the text parses, and to what, depends on
/// the text alone; chrono only constructs valid calendar dates and times, so
/// a parsed month is in 1..=12, a day in 1..=31, an hour below 24 and a
/// minute below 60.
#[verifier::external_body]
fn parse_timestamp(s: &str) -> (r: Option<Timestamp>)
    ensures
        r is Some <==> parsed_timestamp(s@) is Some,
        r matches Some(t) ==> parsed_timestamp(s@) == Some(
            (t.date.year, t.date.month, t.date.day, t.hour, t.minute),
        ) && t.valid(),
{
    match chrono::NaiveDateTime::parse_from_str(s, "%b %e, %Y %l:%M %p") {
        Ok(dt) => Some(
            Timestamp {
                date: Date { year: dt.year(), month: dt.month(), day: dt.day() },
                hour: dt.hour(),
                minute: dt.minute(),
            },
        ),
        Err(_) => None,
    }
}

/// Decode every station slice of one row's parsed fields, in table order,
/// stopping at the first structural failure.
pub open spec fn spec_decode_entries(
    fields: Seq<Option<i32>>,
    ts: Timestamp,
    entries: Seq<StationEntry>,
) -> Result<Seq<IndividualCount>, CountError>
    decreases entries.len(),
{
    if entries.len() == 0 {
        Result::Ok(Seq::empty())
    } else {
        match spec_decode_entries(fields, ts, entries.drop_last()) {
            Result::Err(e) => Result::Err(e),
            Result::Ok(pre) => {
                let e = entries.last();
                match spec_new_count(
                    e.location_id,
                    ts,
                    fields.subrange(e.start as int, e.start + e.span),
                    e.has_ped,
                    e.has_bike,
                ) {
                    Result::Err(err) => Result::Err(err),
                    Result::Ok(c) => Result::Ok(pre.push(c)),
                }
            },
        }
    }
}

/// Once a prefix of the table has failed, the whole table fails the same way.
proof fn lemma_decode_entries_err_prefix(
    fields: Seq<Option<i32>>,
    ts: Timestamp,
    entries: Seq<StationEntry>,
    i: int,
)
    requires
        0 <= i <= entries.len(),
        spec_decode_entries(fields, ts, entries.take(i)) is Err,
    ensures
        spec_decode_entries(fields, ts, entries) == spec_decode_entries(fields, ts, entries.take(i)),
    decreases entries.len() - i,
{
    if i == entries.len() {
        assert(entries.take(i) =~= entries);
    } else {
        assert(entries.take(i + 1).drop_last() =~= entries.take(i));
        lemma_decode_entries_err_prefix(fields, ts, entries, i + 1);
    }
}

/// A successful decode yields exactly one count per layout entry.
pub proof fn lemma_decode_entries_len(
    fields: Seq<Option<i32>>,
    ts: Timestamp,
    entries: Seq<StationEntry>,
)
    requires
        spec_decode_entries(fields, ts, entries) is Ok,
    ensures
        spec_decode_entries(fields, ts, entries)->Ok_0.len() == entries.len(),
    decreases entries.len(),
{
    if entries.len() > 0 {
        lemma_decode_entries_len(fields, ts, entries.drop_last());
    }
}

/// What decoding one raw row yields: a row of the wrong width is a layout
/// arity failure, an unparseable timestamp aborts the run, and otherwise every
/// field is read as an optional count and every station slice is decoded.
pub open spec fn spec_decode_row(
    row: Seq<Seq<char>>,
    entries: Seq<StationEntry>,
    width: int,
) -> Result<(Timestamp, Seq<IndividualCount>), ImportError> {
    if row.len() != width {
        Result::Err(ImportError::Layout(CountError::UnexpectedArity))
    } else {
        match parsed_timestamp(row[0]) {
            Option::None => Result::Err(ImportError::Parse),
            Option::Some(t) => {
                let ts = spec_timestamp_of(t);
                match spec_decode_entries(row.map_values(|f: Seq<char>| spec_parse_count(f)), ts, entries) {
                    Result::Err(e) => Result::Err(ImportError::Layout(e)),
                    Result::Ok(cs) => Result::Ok((ts, cs)),
                }
            },
        }
    }
}

/// The view of one raw row: each field as a sequence of characters.
pub open spec fn row_view(r: Vec<String>) -> Seq<Seq<char>> {
    r@.map_values(|s: String| s@)
}

/// Decode one raw row against a layout table. Yields the row's timestamp and
/// one count per station, or the failure that aborts the run.
pub fn decode_row(row: &Vec<String>, layout: &Layout) -> (r: Result<
    (Timestamp, Vec<IndividualCount>),
    ImportError,
>)
    requires
        layout.wf(),
    ensures
        (match r {
            Result::Ok((ts, cs)) => spec_decode_row(row_view(*row), layout.entries@, layout.width as int)
                == Result::<(Timestamp, Seq<IndividualCount>), ImportError>::Ok((ts, cs@)),
            Result::Err(e) => spec_decode_row(row_view(*row), layout.entries@, layout.width as int)
                == Result::<(Timestamp, Seq<IndividualCount>), ImportError>::Err(e),
        }),
        r matches Ok(p) ==> p.1@.len() == layout.entries@.len(),
{
    let ghost rview = row_view(*row);
    if row.len() != layout.width {
        return Err(ImportError::Layout(CountError::UnexpectedArity));
    }
    let ts = match parse_timestamp(row[0].as_str()) {
        Some(t) => t,
        None => {
            return Err(ImportError::Parse);
        },
    };
    let n = row.len();
    let mut fields: Vec<Option<i32>> = Vec::new();
    let mut i: usize = 0;
    while i < n
        invariant
            0 <= i <= n,
            n == row@.len(),
            fields@.len() == i,
            forall|j: int| 0 <= j < i ==> fields@[j] == spec_parse_count(row@[j]@),
        decreases n - i,
    {
        fields.push(parse_count(row[i].as_str()));
        i += 1;
    }
    let ghost sfields = rview.map_values(|f: Seq<char>| spec_parse_count(f));
    proof {
        assert(fields@ =~= sfields);
    }
    let m = layout.entries.len();
    let mut counts: Vec<IndividualCount> = Vec::new();
    let mut k: usize = 0;
    while k < m
        invariant
            0 <= k <= m,
            m == layout.entries@.len(),
            layout.wf(),
            rview == row_view(*row),
            rview.len() == layout.width,
            sfields == rview.map_values(|f: Seq<char>| spec_parse_count(f)),
            parsed_timestamp(rview[0]) == Some(
                (ts.date.year, ts.date.month, ts.date.day, ts.hour, ts.minute),
            ),
            ts == spec_timestamp_of((ts.date.year, ts.date.month, ts.date.day, ts.hour, ts.minute)),
            fields@ == sfields,
            fields@.len() == layout.width,
            spec_decode_entries(sfields, ts, layout.entries@.take(k as int))
                == Result::<Seq<IndividualCount>, CountError>::Ok(counts@),
        decreases m - k,
    {
        let e = layout.entries[k];
        assert(e.start + e.span < layout.width);
        let slice = slice_subrange(fields.as_slice(), e.start, e.start + e.span);
        let c = match IndividualCount::new(e.location_id, ts, slice, e.has_ped, e.has_bike) {
            Ok(c) => c,
            Err(err) => {
                proof {
                    assert(layout.entries@.take(k + 1).drop_last() =~= layout.entries@.take(
                        k as int,
                    ));
                    assert(layout.entries@.take(k + 1).last() == layout.entries@[k as int]);
                    lemma_decode_entries_err_prefix(sfields, ts, layout.entries@, k + 1);
                }
                return Err(ImportError::Layout(err));
            },
        };
        proof {
            assert(layout.entries@.take(k + 1).drop_last() =~= layout.entries@.take(k as int));
            assert(layout.entries@.take(k + 1).last() == layout.entries@[k as int]);
        }
        counts.push(c);
        k += 1;
    }
    proof {
        assert(layout.entries@.take(m as int) =~= layout.entries@);
        lemma_decode_entries_len(sfields, ts, layout.entries@);
    }
    Ok((ts, counts))
}

/// The view of the raw rows: each field of each row as characters.
pub open spec fn rows_view(rs: Vec<Vec<String>>) -> Seq<Seq<Seq<char>>> {
    rs@.map_values(|r: Vec<String>| row_view(r))
}

/// What decoding a run's data rows yields: each row's calendar date, in row
/// order, and every row's counts concatenated in row and table order; or the
/// first row's failure.
pub open spec fn spec_decode_rows(
    rows: Seq<Seq<Seq<char>>>,
    entries: Seq<StationEntry>,
    width: int,
) -> Result<(Seq<Date>, Seq<IndividualCount>), ImportError>
    decreases rows.len(),
{
    if rows.len() == 0 {
        Result::Ok((Seq::empty(), Seq::empty()))
    } else {
        match spec_decode_rows(rows.drop_last(), entries, width) {
            Result::Err(e) => Result::Err(e),
            Result::Ok(pre) => match spec_decode_row(rows.last(), entries, width) {
                Result::Err(e) => Result::Err(e),
                Result::Ok(rc) => Result::Ok((pre.0.push(rc.0.date), pre.1 + rc.1)),
            },
        }
    }
}

/// Once a prefix of the rows has failed, the whole run fails the same way.
proof fn lemma_decode_rows_err_prefix(
    rows: Seq<Seq<Seq<char>>>,
    entries: Seq<StationEntry>,
    width: int,
    i: int,
)
    requires
        0 <= i <= rows.len(),
        spec_decode_rows(rows.take(i), entries, width) is Err,
    ensures
        spec_decode_rows(rows, entries, width) == spec_decode_rows(rows.take(i), entries, width),
    decreases rows.len() - i,
{
    if i == rows.len() {
        assert(rows.take(i) =~= rows);
    } else {
        assert(rows.take(i + 1).drop_last() =~= rows.take(i));
        lemma_decode_rows_err_prefix(rows, entries, width, i + 1);
    }
}

/// A successful run decodes one date per row and one count per row per layout
/// entry: the record total is rows times entries.
pub proof fn lemma_decode_rows_len(
    rows: Seq<Seq<Seq<char>>>,
    entries: Seq<StationEntry>,
    width: int,
)
    requires
        spec_decode_rows(rows, entries, width) is Ok,
    ensures
        spec_decode_rows(rows, entries, width)->Ok_0.0.len() == rows.len(),
        spec_decode_rows(rows, entries, width)->Ok_0.1.len() == rows.len() * entries.len(),
    decreases rows.len(),
{
    if rows.len() > 0 {
        lemma_decode_rows_len(rows.drop_last(), entries, width);
        let ts = spec_decode_row(rows.last(), entries, width)->Ok_0.0;
        let fields = rows.last().map_values(|f: Seq<char>| spec_parse_count(f));
        lemma_decode_entries_len(fields, ts, entries);
        assert((rows.len() - 1) * entries.len() + entries.len() == rows.len() * entries.len())
            by (nonlinear_arith);
    }
}

/// Every count a row decodes to carries the row's own timestamp.
proof fn lemma_decode_entries_ts(
    fields: Seq<Option<i32>>,
    ts: Timestamp,
    entries: Seq<StationEntry>,
)
    requires
        spec_decode_entries(fields, ts, entries) is Ok,
    ensures
        forall|j: int|
            0 <= j < spec_decode_entries(fields, ts, entries)->Ok_0.len() ==> (
            #[trigger] spec_decode_entries(fields, ts, entries)->Ok_0[j]).datetime == ts,
    decreases entries.len(),
{
    if entries.len() > 0 {
        lemma_decode_entries_ts(fields, ts, entries.drop_last());
    }
}

/// Every decoded count's calendar date is one of the run's row dates.
pub proof fn lemma_decode_rows_dates_cover(
    rows: Seq<Seq<Seq<char>>>,
    entries: Seq<StationEntry>,
    width: int,
)
    requires
        spec_decode_rows(rows, entries, width) is Ok,
    ensures
        forall|j: int|
            0 <= j < spec_decode_rows(rows, entries, width)->Ok_0.1.len()
                ==> spec_decode_rows(rows, entries, width)->Ok_0.0.contains(
                (#[trigger] spec_decode_rows(rows, entries, width)->Ok_0.1[j]).datetime.date,
            ),
    decreases rows.len(),
{
    broadcast use vstd::seq_lib::lemma_seq_contains_after_push;

    if rows.len() > 0 {
        lemma_decode_rows_dates_cover(rows.drop_last(), entries, width);
        let pre = spec_decode_rows(rows.drop_last(), entries, width)->Ok_0;
        let rc = spec_decode_row(rows.last(), entries, width)->Ok_0;
        let fields = rows.last().map_values(|f: Seq<char>| spec_parse_count(f));
        lemma_decode_entries_ts(fields, rc.0, entries);
        let whole = spec_decode_rows(rows, entries, width)->Ok_0;
        assert forall|j: int| 0 <= j < whole.1.len() implies whole.0.contains(
            (#[trigger] whole.1[j]).datetime.date,
        ) by {
            if j < pre.1.len() {
                assert(whole.1[j] == pre.1[j]);
                assert(pre.0.contains(pre.1[j].datetime.date));
            } else {
                assert(whole.1[j] == rc.1[j - pre.1.len()]);
                assert(whole.1[j].datetime == rc.0);
                assert(whole.0.last() == rc.0.date);
                assert(whole.0.contains(rc.0.date));
            }
        }
    }
}

/// Decode every data row of a run, from `start` on (the rows before it are
/// the metadata line and the header). Yields each row's date and all counts,
/// or the first failure, which aborts the run before anything is loaded.
pub fn decode_rows(rows: &Vec<Vec<String>>, start: usize, layout: &Layout) -> (r: Result<
    (Vec<Date>, Vec<IndividualCount>),
    ImportError,
>)
    requires
        layout.wf(),
        start <= rows@.len(),
    ensures
        (match r {
            Result::Ok((dates, counts)) => spec_decode_rows(
                rows_view(*rows).skip(start as int),
                layout.entries@,
                layout.width as int,
            ) == Result::<(Seq<Date>, Seq<IndividualCount>), ImportError>::Ok((dates@, counts@)),
            Result::Err(e) => spec_decode_rows(
                rows_view(*rows).skip(start as int),
                layout.entries@,
                layout.width as int,
            ) == Result::<(Seq<Date>, Seq<IndividualCount>), ImportError>::Err(e),
        }),
        r matches Ok(p) ==> p.0@.len() == rows@.len() - start && p.1@.len() == (rows@.len()
            - start) * layout.entries@.len(),
{
    let ghost sub = rows_view(*rows).skip(start as int);
    let n = rows.len();
    let mut dates: Vec<Date> = Vec::new();
    let mut counts: Vec<IndividualCount> = Vec::new();
    let mut i: usize = start;
    while i < n
        invariant
            start <= i <= n,
            n == rows@.len(),
            layout.wf(),
            sub == rows_view(*rows).skip(start as int),
            spec_decode_rows(sub.take(i - start), layout.entries@, layout.width as int)
                == Result::<(Seq<Date>, Seq<IndividualCount>), ImportError>::Ok((dates@, counts@)),
        decreases n - i,
    {
        proof {
            assert(sub.take(i - start + 1).drop_last() =~= sub.take(i - start));
            assert(sub.take(i - start + 1).last() == row_view(rows@[i as int]));
        }
        match decode_row(&rows[i], layout) {
            Ok((ts, mut cs)) => {
                dates.push(ts.date);
                counts.append(&mut cs);
            },
            Err(e) => {
                proof {
                    lemma_decode_rows_err_prefix(
                        sub,
                        layout.entries@,
                        layout.width as int,
                        i - start + 1,
                    );
                }
                return Err(e);
            },
        }
        i += 1;
    }
    proof {
        assert(sub.take(n - start) =~= sub);
        lemma_decode_rows_len(sub, layout.entries@, layout.width as int);
    }
    Ok((dates, counts))
}

} // verus!
