//! The load coordinator's decisions as data: a run's load plan (which dates to
//! purge, which rows to insert), the serialized schedule of sink operations it
//! stands for, and the two guarantees the schedule gives — every delete runs
//! before any insert, and applying the same plan twice leaves the sink exactly
//! as applying it once does.

use vstd::prelude::*;

use crate::counts::{AggregatedCount, Date, IndividualCount};

verus! {

broadcast use vstd::seq_lib::lemma_seq_contains_after_push;

/// Everything one run hands the sink loader: the distinct dates whose stored
/// rows must be purged first, then the individual readings, then the daily
/// rollups.
#[derive(Clone, Debug, PartialEq, Eq)]
pub struct LoadPlan {
    pub dates: Vec<Date>,
    pub individual: Vec<IndividualCount>,
    pub aggregated: Vec<AggregatedCount>,
}

impl LoadPlan {
    /// A plan purges every date it inserts into: the dates are distinct and
    /// cover every record of both insert phases.
    pub open spec fn wf(self) -> bool {
        &&& self.dates@.no_duplicates()
        &&& (forall|j: int|
            0 <= j < self.individual@.len() ==> self.dates@.contains(
                (#[trigger] self.individual@[j]).datetime.date,
            ))
        &&& (forall|j: int|
            0 <= j < self.aggregated@.len() ==> self.dates@.contains(
                (#[trigger] self.aggregated@[j]).date,
            ))
    }
}

/// One call into the sink. A worker that drains a batch commits once at the
/// end of it; the delete phase commits once per date.
#[derive(Clone, Copy, Debug, PartialEq, Eq)]
pub enum SinkOp {
    /// Purge the individual-fact store of one date's rows.
    DeleteIndividualByDate(Date),
    /// Purge the aggregate store of one date's rows.
    DeleteAggregatedByDate(Date),
    /// Insert one reading into the individual-fact store.
    InsertIndividual(IndividualCount),
    /// Insert one rollup into the aggregate store.
    InsertAggregated(AggregatedCount),
    /// Commit what this connection has done so far.
    Commit,
}

impl SinkOp {
    pub open spec fn is_delete(self) -> bool {
        self is DeleteIndividualByDate || self is DeleteAggregatedByDate
    }

    pub open spec fn is_insert(self) -> bool {
        self is InsertIndividual || self is InsertAggregated
    }
}

/// The delete phase's schedule: for each date, purge both stores, then commit
/// that date's deletions.
pub open spec fn delete_phase_ops(dates: Seq<Date>) -> Seq<SinkOp>
    decreases dates.len(),
{
    if dates.len() == 0 {
        Seq::empty()
    } else {
        delete_phase_ops(dates.drop_last()) + seq![
            SinkOp::DeleteIndividualByDate(dates.last()),
            SinkOp::DeleteAggregatedByDate(dates.last()),
            SinkOp::Commit,
        ]
    }
}

/// The individual-insert phase's schedule: every reading, then one commit.
pub open spec fn insert_individual_ops(cs: Seq<IndividualCount>) -> Seq<SinkOp> {
    cs.map_values(|c: IndividualCount| SinkOp::InsertIndividual(c)).push(SinkOp::Commit)
}

/// The aggregate-insert phase's schedule: every rollup, then one commit.
pub open spec fn insert_aggregated_ops(cs: Seq<AggregatedCount>) -> Seq<SinkOp> {
    cs.map_values(|c: AggregatedCount| SinkOp::InsertAggregated(c)).push(SinkOp::Commit)
}

/// The whole run's schedule, phase after phase under full barriers: all
/// deletes, then all individual inserts, then all aggregate inserts.
pub open spec fn spec_plan_ops(p: LoadPlan) -> Seq<SinkOp> {
    delete_phase_ops(p.dates@) + insert_individual_ops(p.individual@) + insert_aggregated_ops(
        p.aggregated@,
    )
}

/// Serialize a plan into its schedule of sink operations.
pub fn plan_ops(p: &LoadPlan) -> (r: Vec<SinkOp>)
    ensures
        r@ == spec_plan_ops(*p),
{
    let mut ops: Vec<SinkOp> = Vec::new();
    let nd = p.dates.len();
    let mut i: usize = 0;
    while i < nd
        invariant
            0 <= i <= nd,
            nd == p.dates@.len(),
            ops@ == delete_phase_ops(p.dates@.take(i as int)),
        decreases nd - i,
    {
        proof {
            assert(p.dates@.take(i + 1).drop_last() =~= p.dates@.take(i as int));
            assert(p.dates@.take(i + 1).last() == p.dates@[i as int]);
        }
        ops.push(SinkOp::DeleteIndividualByDate(p.dates[i]));
        ops.push(SinkOp::DeleteAggregatedByDate(p.dates[i]));
        ops.push(SinkOp::Commit);
        proof {
            assert(ops@ =~= delete_phase_ops(p.dates@.take(i + 1)));
        }
        i += 1;
    }
    proof {
        assert(p.dates@.take(nd as int) =~= p.dates@);
    }
    let ghost deletes = delete_phase_ops(p.dates@);
    let ni = p.individual.len();
    let mut j: usize = 0;
    while j < ni
        invariant
            0 <= j <= ni,
            ni == p.individual@.len(),
            deletes == delete_phase_ops(p.dates@),
            ops@ == deletes + p.individual@.take(j as int).map_values(
                |c: IndividualCount| SinkOp::InsertIndividual(c),
            ),
        decreases ni - j,
    {
        ops.push(SinkOp::InsertIndividual(p.individual[j]));
        proof {
            assert(ops@ =~= deletes + p.individual@.take(j + 1).map_values(
                |c: IndividualCount| SinkOp::InsertIndividual(c),
            ));
        }
        j += 1;
    }
    ops.push(SinkOp::Commit);
    proof {
        assert(p.individual@.take(ni as int) =~= p.individual@);
        assert(ops@ =~= deletes + insert_individual_ops(p.individual@));
    }
    let ghost head = deletes + insert_individual_ops(p.individual@);
    let na = p.aggregated.len();
    let mut k: usize = 0;
    while k < na
        invariant
            0 <= k <= na,
            na == p.aggregated@.len(),
            head == delete_phase_ops(p.dates@) + insert_individual_ops(p.individual@),
            ops@ == head + p.aggregated@.take(k as int).map_values(
                |c: AggregatedCount| SinkOp::InsertAggregated(c),
            ),
        decreases na - k,
    {
        ops.push(SinkOp::InsertAggregated(p.aggregated[k]));
        proof {
            assert(ops@ =~= head + p.aggregated@.take(k + 1).map_values(
                |c: AggregatedCount| SinkOp::InsertAggregated(c),
            ));
        }
        k += 1;
    }
    ops.push(SinkOp::Commit);
    proof {
        assert(p.aggregated@.take(na as int) =~= p.aggregated@);
        assert(ops@ =~= spec_plan_ops(*p));
    }
    ops
}

/// The delete phase holds no insert.
proof fn lemma_delete_phase_no_insert(dates: Seq<Date>)
    ensures
        forall|k: int|
            0 <= k < delete_phase_ops(dates).len() ==> !(#[trigger] delete_phase_ops(
                dates,
            )[k]).is_insert(),
    decreases dates.len(),
{
    if dates.len() > 0 {
        lemma_delete_phase_no_insert(dates.drop_last());
        let pre = delete_phase_ops(dates.drop_last());
        assert forall|k: int| 0 <= k < delete_phase_ops(dates).len() implies !(
        #[trigger] delete_phase_ops(dates)[k]).is_insert() by {
            if k < pre.len() {
                assert(delete_phase_ops(dates)[k] == pre[k]);
            }
        }
    }
}

/// The insert phases hold no delete.
proof fn lemma_insert_phases_no_delete(p: LoadPlan)
    ensures
        forall|k: int|
            0 <= k < insert_individual_ops(p.individual@).len() ==> !(
            #[trigger] insert_individual_ops(p.individual@)[k]).is_delete(),
        forall|k: int|
            0 <= k < insert_aggregated_ops(p.aggregated@).len() ==> !(
            #[trigger] insert_aggregated_ops(p.aggregated@)[k]).is_delete(),
{
}

/// The full barrier between the phases: in a run's schedule, every delete
/// stands before every insert — no insert call is made until every scheduled
/// delete has been.
pub proof fn lemma_deletes_precede_inserts(p: LoadPlan, i: int, j: int)
    requires
        0 <= i < spec_plan_ops(p).len(),
        0 <= j < spec_plan_ops(p).len(),
        spec_plan_ops(p)[i].is_insert(),
        spec_plan_ops(p)[j].is_delete(),
    ensures
        j < i,
{
    let deletes = delete_phase_ops(p.dates@);
    lemma_delete_phase_no_insert(p.dates@);
    lemma_insert_phases_no_delete(p);
    assert(i >= deletes.len());
    assert(j < deletes.len());
}

/// The sink as the pipeline sees it: which rows each store holds. A commit
/// changes nothing here; it only closes one connection's unit of work.
pub struct SinkState {
    pub individual: Seq<IndividualCount>,
    pub aggregated: Seq<AggregatedCount>,
}

/// What one sink call does to the stores: a delete purges one date's rows
/// from one store, an insert appends one row.
pub open spec fn apply_op(st: SinkState, op: SinkOp) -> SinkState {
    match op {
        SinkOp::DeleteIndividualByDate(d) => SinkState {
            individual: st.individual.filter(|c: IndividualCount| c.datetime.date != d),
            aggregated: st.aggregated,
        },
        SinkOp::DeleteAggregatedByDate(d) => SinkState {
            individual: st.individual,
            aggregated: st.aggregated.filter(|a: AggregatedCount| a.date != d),
        },
        SinkOp::InsertIndividual(c) => SinkState {
            individual: st.individual.push(c),
            aggregated: st.aggregated,
        },
        SinkOp::InsertAggregated(a) => SinkState {
            individual: st.individual,
            aggregated: st.aggregated.push(a),
        },
        SinkOp::Commit => st,
    }
}

/// A schedule's effect on the sink, call after call.
pub open spec fn apply_ops(st: SinkState, ops: Seq<SinkOp>) -> SinkState
    decreases ops.len(),
{
    if ops.len() == 0 {
        st
    } else {
        apply_ops(apply_op(st, ops.first()), ops.drop_first())
    }
}

/// Applying a concatenation applies the parts in turn.
proof fn lemma_apply_ops_app(st: SinkState, a: Seq<SinkOp>, b: Seq<SinkOp>)
    ensures
        apply_ops(st, a + b) == apply_ops(apply_ops(st, a), b),
    decreases a.len(),
{
    if a.len() == 0 {
        assert(a + b =~= b);
    } else {
        assert((a + b).first() == a.first());
        assert((a + b).drop_first() =~= a.drop_first() + b);
        lemma_apply_ops_app(apply_op(st, a.first()), a.drop_first(), b);
    }
}

/// A filter keeps a sequence whose every element it accepts.
proof fn lemma_filter_all_kept<A>(s: Seq<A>, p: spec_fn(A) -> bool)
    requires
        forall|i: int| 0 <= i < s.len() ==> p(#[trigger] s[i]),
    ensures
        s.filter(p) == s,
    decreases s.len(),
{
    reveal(Seq::filter);
    if s.len() > 0 {
        lemma_filter_all_kept(s.drop_last(), p);
        assert(s.drop_last().push(s.last()) =~= s);
    }
}

/// A filter empties a sequence whose every element it rejects.
proof fn lemma_filter_none_kept<A>(s: Seq<A>, p: spec_fn(A) -> bool)
    requires
        forall|i: int| 0 <= i < s.len() ==> !p(#[trigger] s[i]),
    ensures
        s.filter(p) == Seq::<A>::empty(),
    decreases s.len(),
{
    reveal(Seq::filter);
    if s.len() > 0 {
        lemma_filter_none_kept(s.drop_last(), p);
    }
}

/// Two filters in a row are the filter of the conjunction.
proof fn lemma_filter_compose<A>(
    s: Seq<A>,
    p1: spec_fn(A) -> bool,
    p2: spec_fn(A) -> bool,
    p12: spec_fn(A) -> bool,
)
    requires
        forall|x: A| #[trigger] p12(x) == (p1(x) && p2(x)),
    ensures
        s.filter(p1).filter(p2) == s.filter(p12),
    decreases s.len(),
{
    reveal(Seq::filter);
    if s.len() > 0 {
        lemma_filter_compose(s.drop_last(), p1, p2, p12);
        if p1(s.last()) {
            assert(s.drop_last().filter(p1).push(s.last()).drop_last() =~= s.drop_last().filter(
                p1,
            ));
        }
    }
}

/// The rows of one store that survive the delete phase: those whose date the
/// run does not purge.
pub open spec fn purge_individual(s: Seq<IndividualCount>, dates: Seq<Date>) -> Seq<
    IndividualCount,
> {
    s.filter(|c: IndividualCount| !dates.contains(c.datetime.date))
}

/// As `purge_individual`, for the aggregate store.
pub open spec fn purge_aggregated(s: Seq<AggregatedCount>, dates: Seq<Date>) -> Seq<
    AggregatedCount,
> {
    s.filter(|a: AggregatedCount| !dates.contains(a.date))
}

/// The delete phase purges exactly the plan's dates from both stores.
proof fn lemma_delete_phase_effect(st: SinkState, dates: Seq<Date>)
    ensures
        apply_ops(st, delete_phase_ops(dates)) == (SinkState {
            individual: purge_individual(st.individual, dates),
            aggregated: purge_aggregated(st.aggregated, dates),
        }),
    decreases dates.len(),
{
    if dates.len() == 0 {
        assert(apply_ops(st, delete_phase_ops(dates)) == st);
        lemma_filter_all_kept(
            st.individual,
            |c: IndividualCount| !dates.contains(c.datetime.date),
        );
        lemma_filter_all_kept(st.aggregated, |a: AggregatedCount| !dates.contains(a.date));
    } else {
        let prefix = dates.drop_last();
        let d = dates.last();
        lemma_delete_phase_effect(st, prefix);
        let a = SinkOp::DeleteIndividualByDate(d);
        let b = SinkOp::DeleteAggregatedByDate(d);
        let trip = seq![a, b, SinkOp::Commit];
        lemma_apply_ops_app(st, delete_phase_ops(prefix), trip);
        let st1 = apply_ops(st, delete_phase_ops(prefix));
        assert(trip =~= (seq![a] + seq![b]) + seq![SinkOp::Commit]);
        lemma_apply_ops_app(st1, seq![a] + seq![b], seq![SinkOp::Commit]);
        lemma_apply_ops_app(st1, seq![a], seq![b]);
        lemma_apply_single(st1, a);
        lemma_apply_single(apply_op(st1, a), b);
        lemma_apply_single(apply_op(apply_op(st1, a), b), SinkOp::Commit);
        assert(prefix.push(d) =~= dates);
        assert forall|x: Date| #[trigger] dates.contains(x) == (prefix.contains(x) || x == d) by {
            assert(prefix.push(d).contains(x) == (prefix.contains(x) || x == d));
        }
        lemma_filter_compose(
            st.individual,
            |c: IndividualCount| !prefix.contains(c.datetime.date),
            |c: IndividualCount| c.datetime.date != d,
            |c: IndividualCount| !dates.contains(c.datetime.date),
        );
        lemma_filter_compose(
            st.aggregated,
            |a2: AggregatedCount| !prefix.contains(a2.date),
            |a2: AggregatedCount| a2.date != d,
            |a2: AggregatedCount| !dates.contains(a2.date),
        );
    }
}

/// A single sink call is its one-op schedule.
proof fn lemma_apply_single(st: SinkState, op: SinkOp)
    ensures
        apply_ops(st, seq![op]) == apply_op(st, op),
{
    assert(seq![op].drop_first() =~= Seq::<SinkOp>::empty());
    assert(apply_ops(apply_op(st, op), seq![op].drop_first()) == apply_op(st, op));
}

/// A run of inserts into the individual store appends exactly those rows.
proof fn lemma_apply_individual_inserts(st: SinkState, cs: Seq<IndividualCount>)
    ensures
        apply_ops(st, cs.map_values(|c: IndividualCount| SinkOp::InsertIndividual(c))) == (
        SinkState { individual: st.individual + cs, aggregated: st.aggregated }),
    decreases cs.len(),
{
    let f = |c: IndividualCount| SinkOp::InsertIndividual(c);
    if cs.len() == 0 {
        assert(cs.map_values(f) =~= Seq::<SinkOp>::empty());
        assert(st.individual + cs =~= st.individual);
    } else {
        let shorter = cs.drop_last();
        lemma_apply_individual_inserts(st, shorter);
        assert(cs.map_values(f) =~= shorter.map_values(f) + seq![f(cs.last())]);
        lemma_apply_ops_app(st, shorter.map_values(f), seq![f(cs.last())]);
        lemma_apply_single(apply_ops(st, shorter.map_values(f)), f(cs.last()));
        assert((st.individual + shorter).push(cs.last()) =~= st.individual + cs);
    }
}

/// A run of inserts into the aggregate store appends exactly those rows.
proof fn lemma_apply_aggregated_inserts(st: SinkState, cs: Seq<AggregatedCount>)
    ensures
        apply_ops(st, cs.map_values(|c: AggregatedCount| SinkOp::InsertAggregated(c))) == (
        SinkState { individual: st.individual, aggregated: st.aggregated + cs }),
    decreases cs.len(),
{
    let f = |c: AggregatedCount| SinkOp::InsertAggregated(c);
    if cs.len() == 0 {
        assert(cs.map_values(f) =~= Seq::<SinkOp>::empty());
        assert(st.aggregated + cs =~= st.aggregated);
    } else {
        let shorter = cs.drop_last();
        lemma_apply_aggregated_inserts(st, shorter);
        assert(cs.map_values(f) =~= shorter.map_values(f) + seq![f(cs.last())]);
        lemma_apply_ops_app(st, shorter.map_values(f), seq![f(cs.last())]);
        lemma_apply_single(apply_ops(st, shorter.map_values(f)), f(cs.last()));
        assert((st.aggregated + shorter).push(cs.last()) =~= st.aggregated + cs);
    }
}

/// The individual-insert phase appends exactly the plan's readings.
proof fn lemma_insert_individual_effect(st: SinkState, cs: Seq<IndividualCount>)
    ensures
        apply_ops(st, insert_individual_ops(cs)) == (SinkState {
            individual: st.individual + cs,
            aggregated: st.aggregated,
        }),
{
    let f = |c: IndividualCount| SinkOp::InsertIndividual(c);
    assert(insert_individual_ops(cs) =~= cs.map_values(f) + seq![SinkOp::Commit]);
    lemma_apply_ops_app(st, cs.map_values(f), seq![SinkOp::Commit]);
    lemma_apply_individual_inserts(st, cs);
    lemma_apply_single(apply_ops(st, cs.map_values(f)), SinkOp::Commit);
}

/// The aggregate-insert phase appends exactly the plan's rollups.
proof fn lemma_insert_aggregated_effect(st: SinkState, cs: Seq<AggregatedCount>)
    ensures
        apply_ops(st, insert_aggregated_ops(cs)) == (SinkState {
            individual: st.individual,
            aggregated: st.aggregated + cs,
        }),
{
    let f = |c: AggregatedCount| SinkOp::InsertAggregated(c);
    assert(insert_aggregated_ops(cs) =~= cs.map_values(f) + seq![SinkOp::Commit]);
    lemma_apply_ops_app(st, cs.map_values(f), seq![SinkOp::Commit]);
    lemma_apply_aggregated_inserts(st, cs);
    lemma_apply_single(apply_ops(st, cs.map_values(f)), SinkOp::Commit);
}

/// What one whole run leaves in the sink: each store purged of the plan's
/// dates and the plan's rows appended.
pub open spec fn spec_apply_plan(st: SinkState, p: LoadPlan) -> SinkState {
    SinkState {
        individual: purge_individual(st.individual, p.dates@) + p.individual@,
        aggregated: purge_aggregated(st.aggregated, p.dates@) + p.aggregated@,
    }
}

/// Running a plan's schedule is the delete-then-insert semantics: existing
/// rows for the plan's dates vanish, the plan's rows take their place.
pub proof fn lemma_plan_ops_effect(st: SinkState, p: LoadPlan)
    ensures
        apply_ops(st, spec_plan_ops(p)) == spec_apply_plan(st, p),
{
    let deletes = delete_phase_ops(p.dates@);
    let ins1 = insert_individual_ops(p.individual@);
    let ins2 = insert_aggregated_ops(p.aggregated@);
    assert(spec_plan_ops(p) =~= deletes + (ins1 + ins2));
    lemma_apply_ops_app(st, deletes, ins1 + ins2);
    lemma_delete_phase_effect(st, p.dates@);
    let st1 = apply_ops(st, deletes);
    lemma_apply_ops_app(st1, ins1, ins2);
    lemma_insert_individual_effect(st1, p.individual@);
    lemma_insert_aggregated_effect(apply_ops(st1, ins1), p.aggregated@);
}

/// Reimporting is idempotent: running the same well-formed plan twice leaves
/// the sink exactly as one run does — the second run's deletes remove
/// precisely the rows the first run inserted for those dates, and its inserts
/// restore them, so no duplicates survive.
pub proof fn lemma_reimport_idempotent(st: SinkState, p: LoadPlan)
    requires
        p.wf(),
    ensures
        apply_ops(apply_ops(st, spec_plan_ops(p)), spec_plan_ops(p)) == apply_ops(
            st,
            spec_plan_ops(p),
        ),
{
    lemma_plan_ops_effect(st, p);
    let st1 = spec_apply_plan(st, p);
    lemma_plan_ops_effect(st1, p);
    let pred_i = |c: IndividualCount| !p.dates@.contains(c.datetime.date);
    let pred_a = |a: AggregatedCount| !p.dates@.contains(a.date);
    Seq::filter_distributes_over_add(purge_individual(st.individual, p.dates@), p.individual@, pred_i);
    Seq::filter_distributes_over_add(purge_aggregated(st.aggregated, p.dates@), p.aggregated@, pred_a);
    assert forall|i: int|
        0 <= i < purge_individual(st.individual, p.dates@).len() implies pred_i(
        #[trigger] purge_individual(st.individual, p.dates@)[i],
    ) by {
        st.individual.lemma_filter_pred(pred_i, i);
    }
    lemma_filter_all_kept(purge_individual(st.individual, p.dates@), pred_i);
    lemma_filter_none_kept(p.individual@, pred_i);
    assert forall|i: int|
        0 <= i < purge_aggregated(st.aggregated, p.dates@).len() implies pred_a(
        #[trigger] purge_aggregated(st.aggregated, p.dates@)[i],
    ) by {
        st.aggregated.lemma_filter_pred(pred_a, i);
    }
    lemma_filter_all_kept(purge_aggregated(st.aggregated, p.dates@), pred_a);
    lemma_filter_none_kept(p.aggregated@, pred_a);
    assert(purge_individual(st1.individual, p.dates@) + p.individual@ =~= st1.individual);
    assert(purge_aggregated(st1.aggregated, p.dates@) + p.aggregated@ =~= st1.aggregated);
}

} // verus!
