//! Daily rollups: reduce one run's individual counts to one aggregated count
//! per (location, date), summing with the absent-absorbing addition, and
//! collect the run's distinct calendar dates.

use vstd::prelude::*;

use crate::counts::{
    AggregatedCount, Date, IndividualCount, nullable_sum, opt_int, opt_int32, spec_opt_add,
};

verus! {

broadcast use vstd::seq_lib::lemma_seq_contains_after_push;

/// One reading's pedestrian contribution: its in and out counts summed with
/// absent absorbed.
pub open spec fn row_ped(c: IndividualCount) -> Option<int> {
    spec_opt_add(opt_int32(c.ped_in), opt_int32(c.ped_out))
}

/// One reading's bicycle contribution.
pub open spec fn row_bike(c: IndividualCount) -> Option<int> {
    spec_opt_add(opt_int32(c.bike_in), opt_int32(c.bike_out))
}

/// One reading's contribution to the day total: the source's own total
/// column, verbatim, never recomputed from the pairs.
pub open spec fn row_total(c: IndividualCount) -> Option<int> {
    opt_int32(c.total)
}

/// Whether a reading belongs to this station and day.
pub open spec fn key_matches(c: IndividualCount, loc: i32, d: Date) -> bool {
    c.location_id == loc && c.datetime.date == d
}

/// A station's pedestrian day total over a run: every matching reading's
/// contribution folded in with absent-absorbing addition.
pub open spec fn sum_ped(s: Seq<IndividualCount>, loc: i32, d: Date) -> Option<int>
    decreases s.len(),
{
    if s.len() == 0 {
        Option::None
    } else {
        spec_opt_add(
            sum_ped(s.drop_last(), loc, d),
            if key_matches(s.last(), loc, d) {
                row_ped(s.last())
            } else {
                Option::None
            },
        )
    }
}

/// A station's bicycle day total over a run.
pub open spec fn sum_bike(s: Seq<IndividualCount>, loc: i32, d: Date) -> Option<int>
    decreases s.len(),
{
    if s.len() == 0 {
        Option::None
    } else {
        spec_opt_add(
            sum_bike(s.drop_last(), loc, d),
            if key_matches(s.last(), loc, d) {
                row_bike(s.last())
            } else {
                Option::None
            },
        )
    }
}

/// A station's day total over a run, from the source's total column alone.
pub open spec fn sum_total(s: Seq<IndividualCount>, loc: i32, d: Date) -> Option<int>
    decreases s.len(),
{
    if s.len() == 0 {
        Option::None
    } else {
        spec_opt_add(
            sum_total(s.drop_last(), loc, d),
            if key_matches(s.last(), loc, d) {
                row_total(s.last())
            } else {
                Option::None
            },
        )
    }
}

/// Every day total is bounded by the number of readings times the largest
/// single contribution, so the running sums stay far inside an i128.
proof fn lemma_sum_bounds(s: Seq<IndividualCount>, loc: i32, d: Date)
    ensures
        sum_ped(s, loc, d) matches Some(v) ==> -(s.len() * 0x1_0000_0000) <= v <= s.len()
            * 0x1_0000_0000,
        sum_bike(s, loc, d) matches Some(v) ==> -(s.len() * 0x1_0000_0000) <= v <= s.len()
            * 0x1_0000_0000,
        sum_total(s, loc, d) matches Some(v) ==> -(s.len() * 0x1_0000_0000) <= v <= s.len()
            * 0x1_0000_0000,
    decreases s.len(),
{
    if s.len() > 0 {
        lemma_sum_bounds(s.drop_last(), loc, d);
        assert((s.len() - 1) * 0x1_0000_0000 + 0x1_0000_0000 == s.len() * 0x1_0000_0000)
            by (nonlinear_arith);
    }
}

/// The per-reading step of each day-total: pushing one reading onto a run
/// folds its contribution into exactly the sums whose key it matches and
/// leaves every other sum unchanged.
proof fn lemma_sum_step(s: Seq<IndividualCount>, c: IndividualCount, loc: i32, d: Date)
    ensures
        key_matches(c, loc, d) ==> sum_ped(s.push(c), loc, d) == spec_opt_add(
            sum_ped(s, loc, d),
            row_ped(c),
        ) && sum_bike(s.push(c), loc, d) == spec_opt_add(sum_bike(s, loc, d), row_bike(c))
            && sum_total(s.push(c), loc, d) == spec_opt_add(sum_total(s, loc, d), row_total(c)),
        !key_matches(c, loc, d) ==> sum_ped(s.push(c), loc, d) == sum_ped(s, loc, d) && sum_bike(
            s.push(c),
            loc,
            d,
        ) == sum_bike(s, loc, d) && sum_total(s.push(c), loc, d) == sum_total(s, loc, d),
{
    assert(s.push(c).drop_last() =~= s);
    assert(s.push(c).last() == c);
}

/// One rollup entry's totals are the absorbing sums of the run's matching
/// readings.
pub open spec fn entry_ok(counts: Seq<IndividualCount>, a: AggregatedCount) -> bool {
    &&& opt_int(a.total_ped) == sum_ped(counts, a.location_id, a.date)
    &&& opt_int(a.total_bike) == sum_bike(counts, a.location_id, a.date)
    &&& opt_int(a.total) == sum_total(counts, a.location_id, a.date)
}

/// Whether some rollup entry already carries this (location, date) key.
pub open spec fn has_key(out: Seq<AggregatedCount>, loc: i32, d: Date) -> bool {
    exists|k: int| 0 <= k < out.len() && (#[trigger] out[k]).location_id == loc && out[k].date == d
}

/// What `aggregate` guarantees of its result: one entry per (location, date)
/// seen in the run, no duplicate keys, and each entry's three totals equal to
/// the absorbing sums over the whole run.
pub open spec fn aggregate_post(counts: Seq<IndividualCount>, out: Seq<AggregatedCount>) -> bool {
    &&& (forall|k: int| 0 <= k < out.len() ==> entry_ok(counts, #[trigger] out[k]))
    &&& (forall|k1: int, k2: int|
        0 <= k1 < k2 < out.len() ==> !(out[k1].location_id == out[k2].location_id && out[k1].date
            == out[k2].date))
    &&& (forall|j: int|
        0 <= j < counts.len() ==> has_key(
            out,
            (#[trigger] counts[j]).location_id,
            counts[j].datetime.date,
        ))
    &&& (forall|k: int|
        0 <= k < out.len() ==> exists|j: int|
            0 <= j < counts.len() && (#[trigger] out[k]).location_id == counts[j].location_id
                && out[k].date == counts[j].datetime.date)
}

/// Widen an optional reading to the rollup's integer width.
fn opt_widen(a: Option<i32>) -> (r: Option<i128>)
    ensures
        opt_int(r) == opt_int32(a),
{
    match a {
        None => None,
        Some(x) => Some(x as i128),
    }
}

/// Find the rollup entry with this key, if one exists yet.
fn find_entry(out: &Vec<AggregatedCount>, loc: i32, d: Date) -> (r: Option<usize>)
    ensures
        r matches Some(k) ==> 0 <= k < out@.len() && out@[k as int].location_id == loc
            && out@[k as int].date == d,
        r is None ==> !has_key(out@, loc, d),
{
    let n = out.len();
    let mut k: usize = 0;
    while k < n
        invariant
            0 <= k <= n,
            n == out@.len(),
            forall|j: int|
                0 <= j < k ==> !((#[trigger] out@[j]).location_id == loc && out@[j].date == d),
        decreases n - k,
    {
        if out[k].location_id == loc && out[k].date == d {
            return Some(k);
        }
        k += 1;
    }
    None
}

/// Reduce a run's readings to one rollup per (location, date). Order of the
/// result is irrelevant to downstream consumers; keys are unique and each
/// entry carries the absorbing sums of every matching reading.
pub fn aggregate(counts: &Vec<IndividualCount>) -> (r: Vec<AggregatedCount>)
    ensures
        aggregate_post(counts@, r@),
{
    let n = counts.len();
    let mut out: Vec<AggregatedCount> = Vec::new();
    let mut i: usize = 0;
    while i < n
        invariant
            0 <= i <= n,
            n == counts@.len(),
            aggregate_post(counts@.take(i as int), out@),
            forall|loc: i32, d: Date|
                !has_key(out@, loc, d) ==> #[trigger] sum_ped(counts@.take(i as int), loc, d)
                    is None && sum_bike(counts@.take(i as int), loc, d) is None && sum_total(
                    counts@.take(i as int),
                    loc,
                    d,
                ) is None,
        decreases n - i,
    {
        let c = counts[i];
        assert(c == counts@[i as int]);
        let loc = c.location_id;
        let d = c.datetime.date;
        let ghost cc = counts@[i as int];
        let ghost pre = counts@.take(i as int);
        let ghost post = counts@.take(i + 1);
        proof {
            assert(post =~= pre.push(cc));
            lemma_sum_bounds(pre, loc, d);
            assert(pre.len() * 0x1_0000_0000 + 0x1_0000_0000 < i128::MAX) by (nonlinear_arith)
                requires
                    0 <= pre.len() <= usize::MAX,
            ;
        }
        let ped = nullable_sum(opt_widen(c.ped_in), opt_widen(c.ped_out));
        let bike = nullable_sum(opt_widen(c.bike_in), opt_widen(c.bike_out));
        let tot = opt_widen(c.total);
        match find_entry(&out, loc, d) {
            Some(k) => {
                let ghost prev = out@;
                let cur = &out[k];
                proof {
                    lemma_sum_step(pre, cc, loc, d);
                }
                let updated = AggregatedCount {
                    location_id: loc,
                    date: d,
                    total_ped: nullable_sum(cur.total_ped, ped),
                    total_bike: nullable_sum(cur.total_bike, bike),
                    total: nullable_sum(cur.total, tot),
                };
                out.set(k, updated);
                proof {
                    assert forall|kk: int| 0 <= kk < out@.len() implies entry_ok(
                        post,
                        #[trigger] out@[kk],
                    ) by {
                        lemma_sum_step(pre, cc, out@[kk].location_id, out@[kk].date);
                        if kk != k {
                            assert(out@[kk] == prev[kk]);
                            assert(!(prev[kk].location_id == loc && prev[kk].date == d));
                        }
                    }
                    assert forall|j: int| 0 <= j < post.len() implies has_key(
                        out@,
                        (#[trigger] post[j]).location_id,
                        post[j].datetime.date,
                    ) by {
                        if j < i {
                            assert(has_key(prev, post[j].location_id, post[j].datetime.date));
                            let w = choose|w: int|
                                0 <= w < prev.len() && (#[trigger] prev[w]).location_id
                                    == post[j].location_id && prev[w].date
                                    == post[j].datetime.date;
                            if w == k {
                                assert(out@[k as int].location_id == post[j].location_id
                                    && out@[k as int].date == post[j].datetime.date);
                            } else {
                                assert(out@[w].location_id == post[j].location_id && out@[w].date
                                    == post[j].datetime.date);
                            }
                        } else {
                            assert(out@[k as int].location_id == loc && out@[k as int].date == d);
                        }
                    }
                    assert forall|lo: i32, dd: Date| !has_key(out@, lo, dd) implies #[trigger] sum_ped(
                        post,
                        lo,
                        dd,
                    ) is None && sum_bike(post, lo, dd) is None && sum_total(post, lo, dd)
                        is None by {
                        assert forall|w: int|
                            0 <= w < prev.len() implies !((#[trigger] prev[w]).location_id == lo
                            && prev[w].date == dd) by {
                            if w == k {
                                assert(out@[w].location_id == loc && out@[w].date == d);
                            } else {
                                assert(out@[w] == prev[w]);
                            }
                        }
                        assert(!has_key(prev, lo, dd));
                        assert(!(lo == loc && dd == d)) by {
                            assert(out@[k as int].location_id == loc && out@[k as int].date == d);
                        }
                        lemma_sum_step(pre, cc, lo, dd);
                    }
                }
            },
            None => {
                let ghost prev = out@;
                out.push(AggregatedCount { location_id: loc, date: d, total_ped: ped, total_bike: bike, total: tot });
                proof {
                    let m = prev.len() as int;
                    assert(out@[m].location_id == loc && out@[m].date == d);
                    assert(sum_ped(pre, loc, d) is None && sum_bike(pre, loc, d) is None
                        && sum_total(pre, loc, d) is None);
                    assert forall|kk: int| 0 <= kk < out@.len() implies entry_ok(
                        post,
                        #[trigger] out@[kk],
                    ) by {
                        lemma_sum_step(pre, cc, out@[kk].location_id, out@[kk].date);
                        if kk < m {
                            assert(out@[kk] == prev[kk]);
                            assert(!has_key(prev, loc, d));
                            assert(!(prev[kk].location_id == loc && prev[kk].date == d));
                        } else {
                            assert(out@[kk].location_id == loc && out@[kk].date == d);
                        }
                    }
                    assert forall|j: int| 0 <= j < post.len() implies has_key(
                        out@,
                        (#[trigger] post[j]).location_id,
                        post[j].datetime.date,
                    ) by {
                        if j < i {
                            assert(has_key(prev, post[j].location_id, post[j].datetime.date));
                            let w = choose|w: int|
                                0 <= w < prev.len() && (#[trigger] prev[w]).location_id
                                    == post[j].location_id && prev[w].date
                                    == post[j].datetime.date;
                            assert(out@[w].location_id == post[j].location_id && out@[w].date
                                == post[j].datetime.date);
                        } else {
                            assert(out@[m].location_id == post[j].location_id && out@[m].date
                                == post[j].datetime.date);
                        }
                    }
                    assert forall|kk1: int, kk2: int| 0 <= kk1 < kk2 < out@.len() implies !(
                    out@[kk1].location_id == out@[kk2].location_id && out@[kk1].date
                        == out@[kk2].date) by {
                        if kk2 == m {
                            assert(!has_key(prev, loc, d));
                            assert(!((#[trigger] prev[kk1]).location_id == loc && prev[kk1].date
                                == d));
                        }
                    }
                    assert forall|lo: i32, dd: Date| !has_key(out@, lo, dd) implies #[trigger] sum_ped(
                        post,
                        lo,
                        dd,
                    ) is None && sum_bike(post, lo, dd) is None && sum_total(post, lo, dd)
                        is None by {
                        assert forall|w: int|
                            0 <= w < prev.len() implies !((#[trigger] prev[w]).location_id == lo
                            && prev[w].date == dd) by {
                            assert(out@[w] == prev[w]);
                        }
                        assert(!has_key(prev, lo, dd));
                        assert(!(lo == loc && dd == d)) by {
                            assert(out@[m].location_id == loc && out@[m].date == d);
                        }
                        lemma_sum_step(pre, cc, lo, dd);
                    }
                }
            },
        }
        i += 1;
    }
    proof {
        assert(counts@.take(n as int) =~= counts@);
    }
    out
}

/// Every rollup that one aggregation run can produce also occurs in any
/// other aggregation of the same readings: keys are forced by the readings
/// and totals are forced by the sums.
proof fn lemma_rollups_subset(
    counts: Seq<IndividualCount>,
    r1: Seq<AggregatedCount>,
    r2: Seq<AggregatedCount>,
)
    requires
        aggregate_post(counts, r1),
        aggregate_post(counts, r2),
    ensures
        forall|a: AggregatedCount| r1.contains(a) ==> r2.contains(a),
{
    assert forall|a: AggregatedCount| r1.contains(a) implies r2.contains(a) by {
        let k = choose|k: int| 0 <= k < r1.len() && r1[k] == a;
        assert(entry_ok(counts, r1[k]));
        let j = choose|j: int|
            0 <= j < counts.len() && a.location_id == counts[j].location_id && a.date
                == counts[j].datetime.date;
        assert(has_key(r2, counts[j].location_id, counts[j].datetime.date));
        let w = choose|w: int|
            0 <= w < r2.len() && (#[trigger] r2[w]).location_id == a.location_id && r2[w].date
                == a.date;
        assert(entry_ok(counts, r2[w]));
        assert(r2[w].total_ped == a.total_ped && r2[w].total_bike == a.total_bike && r2[w].total
            == a.total);
        assert(r2[w] == a);
    }
}

/// Aggregating the same readings twice yields the same set of daily rollups,
/// whatever order either run listed them in: a reimport of the same file
/// reproduces exactly the rollups of the first import.
pub proof fn lemma_reimport_same_rollups(
    counts: Seq<IndividualCount>,
    r1: Seq<AggregatedCount>,
    r2: Seq<AggregatedCount>,
)
    requires
        aggregate_post(counts, r1),
        aggregate_post(counts, r2),
    ensures
        r1.to_set() == r2.to_set(),
{
    lemma_rollups_subset(counts, r1, r2);
    lemma_rollups_subset(counts, r2, r1);
    assert(r1.to_set() =~= r2.to_set());
}

/// Whether a date already occurs in the list.
fn contains_date(v: &Vec<Date>, d: Date) -> (r: bool)
    ensures
        r <==> v@.contains(d),
{
    let n = v.len();
    let mut k: usize = 0;
    while k < n
        invariant
            0 <= k <= n,
            n == v@.len(),
            forall|j: int| 0 <= j < k ==> v@[j] != d,
        decreases n - k,
    {
        if v[k] == d {
            return true;
        }
        k += 1;
    }
    false
}

/// The run's distinct calendar dates, deduplicated and order-independent:
/// exactly the dates whose stored rows the load must purge before inserting.
pub fn distinct_dates(dates: &Vec<Date>) -> (r: Vec<Date>)
    ensures
        r@.no_duplicates(),
        forall|d: Date| r@.contains(d) <==> dates@.contains(d),
{
    let n = dates.len();
    let mut out: Vec<Date> = Vec::new();
    let mut i: usize = 0;
    while i < n
        invariant
            0 <= i <= n,
            n == dates@.len(),
            out@.no_duplicates(),
            forall|d: Date| out@.contains(d) <==> dates@.take(i as int).contains(d),
        decreases n - i,
    {
        let d = dates[i];
        proof {
            assert(dates@.take(i + 1) =~= dates@.take(i as int).push(dates@[i as int]));
        }
        if !contains_date(&out, d) {
            out.push(d);
        }
        i += 1;
    }
    proof {
        assert(dates@.take(n as int) =~= dates@);
    }
    out
}

} // verus!
