//! The dispatcher: the central state machine of a run. It resolves the
//! effective schema, validates the transport, expands the queries into
//! partitions with fixed row ranges, executes them, and commits or aborts.

use vstd::prelude::*;
use vstd::seq_lib::lemma_flatten_concat;
use crate::destination::{DestState, MemDestination};
use crate::errors::{CxError, ErrKind};
use crate::query::{partition_queries, prefix_total, Query};
use crate::source::{rows_view, Source};
use crate::transport::Transport;
use crate::types::{clone_schema, row_matches, ColumnDef, Schema, Value};

verus! {

/// The lifecycle of a dispatcher.
#[derive(Clone, Copy, Debug, PartialEq, Eq, Structural)]
pub enum DispatchState {
    Created,
    Running,
    Committed,
    Aborted,
}

/// Whether every row of every partition matches the schema columns.
pub open spec fn rows_match(sch: Seq<ColumnDef>, rows: Seq<Seq<Value>>) -> bool {
    forall|i: int| 0 <= i < rows.len() ==> row_matches(sch, #[trigger] rows[i])
}

/// The schema a run works with: a supplied schema wins; otherwise the one
/// the source's probe reports.
pub open spec fn effective_schema<S: Source>(src: S, schema: Option<Schema>) -> Result<
    Seq<ColumnDef>,
    ErrKind,
> {
    match schema {
        Some(s) => Ok(s@),
        None => src.schema_of(),
    }
}

/// The kind of the first fetch error, in query order, if any.
pub open spec fn first_fetch_err<S: Source>(src: S, qs: Seq<Query>) -> Option<ErrKind>
    decreases qs.len(),
{
    if qs.len() == 0 {
        None
    } else {
        match src.rows_of(qs[0].sql@) {
            Err(k) => Some(k),
            Ok(_) => first_fetch_err(src, qs.drop_first()),
        }
    }
}

/// The rows each query yields, meaningful once no fetch fails.
pub open spec fn fetched_rows<S: Source>(src: S, qs: Seq<Query>) -> Seq<Seq<Seq<Value>>> {
    Seq::new(qs.len(), |i: int| src.rows_of(qs[i].sql@)->Ok_0)
}

/// The one outcome a run is allowed to have, as a function of the source's
/// answers, the queries, the supplied schema and the transport — the ground
/// of the run's determinism. Error precedence follows the run's phases: the
/// probe, then the transport validation, then the fetches in query order,
/// then the machine limit on the total row count, then the per-row schema
/// check.
pub open spec fn run_outcome<S: Source>(
    src: S,
    qs: Seq<Query>,
    schema: Option<Schema>,
    t: Transport,
) -> Result<Seq<Seq<Value>>, ErrKind> {
    match effective_schema(src, schema) {
        Err(k) => Err(k),
        Ok(cols) => if !t.supports_all(cols) {
            Err(ErrKind::UnsupportedType)
        } else {
            match first_fetch_err(src, qs) {
                Some(k) => Err(k),
                None => {
                    let rowss = fetched_rows(src, qs);
                    if rowss.flatten().len() > usize::MAX {
                        Err(ErrKind::Other)
                    } else if exists|i: int|
                        0 <= i < rowss.len() && !rows_match(cols, #[trigger] rowss[i]) {
                        Err(ErrKind::SchemaMismatch)
                    } else {
                        Ok(rowss.flatten())
                    }
                },
            }
        },
    }
}

proof fn lemma_first_fetch_err_at<S: Source>(src: S, qs: Seq<Query>, i: int)
    requires
        0 <= i < qs.len(),
        forall|j: int| 0 <= j < i ==> src.rows_of(#[trigger] qs[j].sql@) is Ok,
        src.rows_of(qs[i].sql@) is Err,
    ensures
        first_fetch_err(src, qs) == Some(src.rows_of(qs[i].sql@)->Err_0),
    decreases i,
{
    if i > 0 {
        lemma_first_fetch_err_at(src, qs.drop_first(), i - 1);
    }
}

proof fn lemma_first_fetch_err_none<S: Source>(src: S, qs: Seq<Query>)
    requires
        forall|j: int| 0 <= j < qs.len() ==> src.rows_of(#[trigger] qs[j].sql@) is Ok,
    ensures
        first_fetch_err(src, qs) is None,
    decreases qs.len(),
{
    if qs.len() > 0 {
        lemma_first_fetch_err_none(src, qs.drop_first());
    }
}

/// The flattening of a prefix never exceeds the flattening of the whole.
pub proof fn lemma_flatten_take_le<A>(s: Seq<Seq<A>>, i: int)
    requires
        0 <= i <= s.len(),
    ensures
        s.take(i).flatten().len() <= s.flatten().len(),
    decreases s.len() - i,
{
    if i < s.len() {
        assert(s.take(i + 1) =~= s.take(i).push(s[i]));
        s.take(i).lemma_flatten_push(s[i]);
        lemma_flatten_take_le(s, i + 1);
    } else {
        assert(s.take(i) =~= s);
    }
}

/// The partitioner's prefix totals are exactly the lengths of the flattened
/// prefixes: the tie between assigned row ranges and fetched row counts.
pub proof fn lemma_prefix_total_is_flatten_len(
    counts: Seq<usize>,
    rowss: Seq<Seq<Seq<Value>>>,
    j: int,
)
    requires
        counts.len() == rowss.len(),
        forall|x: int| 0 <= x < counts.len() ==> counts[x] == (#[trigger] rowss[x]).len(),
        0 <= j <= counts.len(),
    ensures
        prefix_total(counts, j) == rowss.take(j).flatten().len(),
    decreases j,
{
    if j > 0 {
        lemma_prefix_total_is_flatten_len(counts, rowss, j - 1);
        assert(rowss.take(j) =~= rowss.take(j - 1).push(rowss[j - 1]));
        rowss.take(j - 1).lemma_flatten_push(rowss[j - 1]);
    } else {
        assert(rowss.take(0) =~= Seq::<Seq<Seq<Value>>>::empty());
    }
}

/// Inside the flattening, partition `i` occupies exactly the slice between
/// the flattened lengths of its preceding prefix and of itself: row order in
/// the result is partition order, independent of completion order.
pub proof fn lemma_flatten_slice<A>(s: Seq<Seq<A>>, i: int)
    requires
        0 <= i < s.len(),
    ensures
        s.take(i).flatten().len() + s[i].len() <= s.flatten().len(),
        s.flatten().subrange(
            s.take(i).flatten().len() as int,
            s.take(i).flatten().len() + s[i].len() as int,
        ) == s[i],
{
    assert(s =~= s.take(i + 1) + s.skip(i + 1));
    lemma_flatten_concat(s.take(i + 1), s.skip(i + 1));
    assert(s.take(i + 1) =~= s.take(i).push(s[i]));
    s.take(i).lemma_flatten_push(s[i]);
    assert(s.flatten() =~= s.take(i).flatten() + s[i] + s.skip(i + 1).flatten());
    assert(s.flatten().subrange(
        s.take(i).flatten().len() as int,
        s.take(i).flatten().len() + s[i].len() as int,
    ) =~= s[i]);
}

/// The sum of the per-partition row counts.
pub open spec fn sum_rows(rowss: Seq<Seq<Seq<Value>>>) -> int
    decreases rowss.len(),
{
    if rowss.len() == 0 {
        0
    } else {
        sum_rows(rowss.drop_last()) + rowss.last().len()
    }
}

pub proof fn lemma_flatten_len_is_sum(rowss: Seq<Seq<Seq<Value>>>)
    ensures
        rowss.flatten().len() == sum_rows(rowss),
    decreases rowss.len(),
{
    if rowss.len() > 0 {
        lemma_flatten_len_is_sum(rowss.drop_last());
        assert(rowss =~= rowss.drop_last().push(rowss.last()));
        rowss.drop_last().lemma_flatten_push(rowss.last());
    }
}

proof fn lemma_first_fetch_err_eq<S1: Source, S2: Source>(s1: S1, s2: S2, qs: Seq<Query>)
    requires
        forall|i: int|
            0 <= i < qs.len() ==> s1.rows_of(#[trigger] qs[i].sql@) == s2.rows_of(qs[i].sql@),
    ensures
        first_fetch_err(s1, qs) == first_fetch_err(s2, qs),
    decreases qs.len(),
{
    if qs.len() > 0 {
        assert(s1.rows_of(qs[0].sql@) == s2.rows_of(qs[0].sql@));
        assert forall|i: int| 0 <= i < qs.drop_first().len() implies s1.rows_of(
            #[trigger] qs.drop_first()[i].sql@,
        ) == s2.rows_of(qs.drop_first()[i].sql@) by {
            assert(qs.drop_first()[i] == qs[i + 1]);
        }
        lemma_first_fetch_err_eq(s1, s2, qs.drop_first());
    }
}

/// Idempotence: two runs whose sources answer identically on the queries —
/// and identically to the probe, when no schema is supplied — have
/// identical outcomes. In particular, repeating the same queries against an
/// unchanged source reproduces the destination contents exactly.
pub proof fn lemma_run_idempotent<S1: Source, S2: Source>(
    s1: S1,
    s2: S2,
    qs: Seq<Query>,
    schema: Option<Schema>,
    t: Transport,
)
    requires
        schema is None ==> s1.schema_of() == s2.schema_of(),
        forall|i: int|
            0 <= i < qs.len() ==> s1.rows_of(#[trigger] qs[i].sql@) == s2.rows_of(qs[i].sql@),
    ensures
        run_outcome(s1, qs, schema, t) == run_outcome(s2, qs, schema, t),
{
    lemma_first_fetch_err_eq(s1, s2, qs);
    assert(fetched_rows(s1, qs) =~= fetched_rows(s2, qs));
}

/// The shape of every successful run: the destination holds exactly the
/// concatenation of the per-partition rows; its row count is their sum; and
/// partition `i` occupies precisely its assigned slice, so row order is
/// partition order, not completion order.
pub proof fn lemma_successful_run_shape<S: Source>(
    src: S,
    qs: Seq<Query>,
    schema: Option<Schema>,
    t: Transport,
)
    requires
        run_outcome(src, qs, schema, t) is Ok,
    ensures
        ({
            let rows = run_outcome(src, qs, schema, t)->Ok_0;
            let rowss = fetched_rows(src, qs);
            &&& rows == rowss.flatten()
            &&& rows.len() == sum_rows(rowss)
            &&& forall|i: int|
                0 <= i < rowss.len() ==> #[trigger] rowss.take(i).flatten().len() + rowss[i].len()
                    <= rows.len()
            &&& forall|i: int|
                0 <= i < rowss.len() ==> rows.subrange(
                    rowss.take(i).flatten().len() as int,
                    rowss.take(i).flatten().len() + rowss[i].len() as int,
                ) == #[trigger] rowss[i]
        }),
{
    let rows = run_outcome(src, qs, schema, t)->Ok_0;
    let rowss = fetched_rows(src, qs);
    lemma_flatten_len_is_sum(rowss);
    assert forall|i: int| 0 <= i < rowss.len() implies #[trigger] rowss.take(i).flatten().len()
        + rowss[i].len() <= rows.len() && rows.subrange(
        rowss.take(i).flatten().len() as int,
        rowss.take(i).flatten().len() + rowss[i].len() as int,
    ) == rowss[i] by {
        lemma_flatten_slice(rowss, i);
    }
}

/// Orchestrates one run: given a source, queries, and an optional schema, it
/// partitions, executes, and commits into a destination or aborts.
pub struct Dispatcher<S: Source> {
    pub source: S,
    pub queries: Vec<Query>,
    pub schema: Option<Schema>,
    pub transport: Transport,
    pub state: DispatchState,
}

impl<S: Source> Dispatcher<S> {
    /// Builds a dispatcher. When a schema is supplied, a transport that
    /// lacks a conversion for one of its types is refused here, before any
    /// connection is attempted.
    pub fn new(source: S, queries: Vec<Query>, schema: Option<Schema>, transport: Transport) -> (r:
        Result<Dispatcher<S>, CxError>)
        ensures
            r is Ok <==> (match schema {
                Some(s) => transport.supports_all(s@),
                None => true,
            }),
            r matches Err(e) ==> e.kind() == ErrKind::UnsupportedType,
            r matches Ok(d) ==> {
                &&& d.source == source
                &&& d.queries == queries
                &&& d.schema == schema
                &&& d.transport == transport
                &&& d.state == DispatchState::Created
            },
    {
        match &schema {
            Some(s) => {
                match transport.check_schema(s) {
                    Ok(()) => {},
                    Err(e) => {
                        return Err(e);
                    },
                }
            },
            None => {},
        }
        Ok(Dispatcher { source, queries, schema, transport, state: DispatchState::Created })
    }

    /// Executes the run against a fresh destination. On success the
    /// destination holds, in partition order, exactly the rows the source
    /// answered, and the dispatcher commits; on any failure the destination
    /// is left unfinalizable — a failed run never exposes a partial result.
    pub fn run(&mut self, dest: &mut MemDestination) -> (r: Result<(), CxError>)
        requires
            old(dest).wf(),
        ensures
            final(self).source == old(self).source,
            final(self).queries == old(self).queries,
            final(self).schema == old(self).schema,
            final(self).transport == old(self).transport,
            final(dest).wf(),
            ({
                let outcome = run_outcome(
                    old(self).source,
                    old(self).queries@,
                    old(self).schema,
                    old(self).transport,
                );
                if old(self).state == DispatchState::Created && old(dest).state
                    == DestState::Unallocated {
                    match outcome {
                        Ok(rows) => {
                            &&& r is Ok
                            &&& final(self).state == DispatchState::Committed
                            &&& final(dest).state == DestState::Allocated
                            &&& final(dest).total == rows.len()
                            &&& final(dest).rows() == rows
                            &&& Ok::<Seq<ColumnDef>, ErrKind>(final(dest).schema@) == effective_schema(
                                old(self).source,
                                old(self).schema,
                            )
                        },
                        Err(k) => {
                            &&& r matches Err(e) && e.kind() == k
                            &&& final(self).state == DispatchState::Aborted
                            &&& final(dest).state != DestState::Allocated
                        },
                    }
                } else {
                    &&& r matches Err(e) && e.kind() == ErrKind::Other
                    &&& *final(self) == *old(self)
                    &&& *final(dest) == *old(dest)
                }
            }),
    {
        if !matches!(self.state, DispatchState::Created) {
            return Err(CxError::Other(String::from_str("dispatcher already ran")));
        }
        if !matches!(dest.state, DestState::Unallocated) {
            return Err(CxError::Other(String::from_str("destination is not fresh")));
        }
        self.state = DispatchState::Running;
        let ghost src = self.source;
        let ghost qs = self.queries@;

        // Entry to Running: resolve the effective schema — a supplied
        // schema wins, otherwise probe through one source connection.
        let sch: Schema = match &self.schema {
            Some(s) => clone_schema(s),
            None => match self.source.probe() {
                Ok(s) => s,
                Err(e) => {
                    self.state = DispatchState::Aborted;
                    return Err(e);
                },
            },
        };
        // Validate the transport against the effective schema before any
        // fetch: a missing conversion is never a runtime surprise.
        match self.transport.check_schema(&sch) {
            Ok(()) => {},
            Err(e) => {
                self.state = DispatchState::Aborted;
                return Err(e);
            },
        }
        let ghost cols = sch@;

        // Fetch pass: one connection per partition, in query order.
        let n = self.queries.len();
        let ghost rowss_spec = fetched_rows(src, qs);
        let mut rowss: Vec<Vec<crate::source::Row>> = Vec::new();
        let mut i: usize = 0;
        while i < n
            invariant
                old(self).state == DispatchState::Created,
                old(dest).state == DestState::Unallocated,
                self.source == old(self).source,
                self.queries == old(self).queries,
                self.schema == old(self).schema,
                self.transport == old(self).transport,
                src == old(self).source,
                qs == old(self).queries@,
                rowss_spec == fetched_rows(src, qs),
                effective_schema(src, old(self).schema) == Ok::<Seq<ColumnDef>, ErrKind>(cols),
                old(self).transport.supports_all(cols),
                sch@ == cols,
                dest.state == DestState::Unallocated,
                dest.wf(),
                n == qs.len(),
                0 <= i <= n,
                rowss@.len() == i,
                forall|j: int| 0 <= j < i ==> src.rows_of(#[trigger] qs[j].sql@) is Ok,
                forall|j: int|
                    0 <= j < i ==> rows_view((#[trigger] rowss@[j])@) == rowss_spec[j],
            decreases n - i,
        {
            match self.source.fetch(&self.queries[i]) {
                Ok(rows) => {
                    rowss.push(rows);
                },
                Err(e) => {
                    proof {
                        lemma_first_fetch_err_at(src, qs, i as int);
                    }
                    self.state = DispatchState::Aborted;
                    return Err(e);
                },
            }
            i += 1;
        }
        proof {
            lemma_first_fetch_err_none(src, qs);
        }

        // Per-partition row counts, and the total they must sum to.
        let mut counts: Vec<usize> = Vec::new();
        let mut total: usize = 0;
        let mut k: usize = 0;
        while k < n
            invariant
                old(self).state == DispatchState::Created,
                old(dest).state == DestState::Unallocated,
                self.source == old(self).source,
                self.queries == old(self).queries,
                self.schema == old(self).schema,
                self.transport == old(self).transport,
                src == old(self).source,
                qs == old(self).queries@,
                rowss_spec == fetched_rows(src, qs),
                effective_schema(src, old(self).schema) == Ok::<Seq<ColumnDef>, ErrKind>(cols),
                old(self).transport.supports_all(cols),
                sch@ == cols,
                dest.state == DestState::Unallocated,
                dest.wf(),
                first_fetch_err(src, qs) is None,
                n == qs.len(),
                rowss@.len() == n,
                rowss_spec.len() == n,
                forall|j: int|
                    0 <= j < n ==> rows_view((#[trigger] rowss@[j])@) == rowss_spec[j],
                0 <= k <= n,
                counts@.len() == k,
                forall|j: int| 0 <= j < k ==> counts@[j] == (#[trigger] rowss_spec[j]).len(),
                total == rowss_spec.take(k as int).flatten().len(),
            decreases n - k,
        {
            let c = rowss[k].len();
            proof {
                assert(rowss_spec.take(k as int + 1) =~= rowss_spec.take(k as int).push(
                    rowss_spec[k as int],
                ));
                rowss_spec.take(k as int).lemma_flatten_push(rowss_spec[k as int]);
            }
            match total.checked_add(c) {
                Some(next) => {
                    counts.push(c);
                    total = next;
                },
                None => {
                    proof {
                        lemma_flatten_take_le(rowss_spec, k as int + 1);
                    }
                    self.state = DispatchState::Aborted;
                    return Err(CxError::Other(String::from_str("total row count overflows")));
                },
            }
            k += 1;
        }
        proof {
            assert(rowss_spec.take(n as int) =~= rowss_spec);
            lemma_prefix_total_is_flatten_len(counts@, rowss_spec, n as int);
        }

        // Expand into partitions; the same partitioning serves both the
        // counting above and the writes below, keeping row order fixed.
        let parts = match partition_queries(&self.queries, &counts) {
            Ok(ps) => ps,
            Err(e) => {
                // the counts are the lengths of rows already in memory and
                // their total fit a usize above, so the partitioner cannot
                // refuse them
                proof {
                    assert(false);
                }
                self.state = DispatchState::Aborted;
                return Err(e);
            },
        };

        // Allocate the destination buffers exactly once.
        match dest.allocate(&sch, total) {
            Ok(()) => {},
            Err(e) => {
                // the destination was checked fresh on entry, so the one
                // allocation cannot be a second one
                proof {
                    assert(false);
                }
                self.state = DispatchState::Aborted;
                return Err(e);
            },
        }

        // Write pass: each partition converts its rows and writes them into
        // its own pre-assigned, disjoint row range.
        let mut p: usize = 0;
        while p < n
            invariant
                old(self).state == DispatchState::Created,
                old(dest).state == DestState::Unallocated,
                self.source == old(self).source,
                self.queries == old(self).queries,
                self.schema == old(self).schema,
                self.transport == old(self).transport,
                src == old(self).source,
                qs == old(self).queries@,
                rowss_spec == fetched_rows(src, qs),
                effective_schema(src, old(self).schema) == Ok::<Seq<ColumnDef>, ErrKind>(cols),
                old(self).transport.supports_all(cols),
                sch@ == cols,
                first_fetch_err(src, qs) is None,
                n == qs.len(),
                rowss@.len() == n,
                parts@.len() == n,
                counts@.len() == n,
                rowss_spec.len() == n,
                forall|j: int|
                    0 <= j < n ==> rows_view((#[trigger] rowss@[j])@) == rowss_spec[j],
                forall|j: int| 0 <= j < n ==> counts@[j] == (#[trigger] rowss_spec[j]).len(),
                forall|j: int|
                    0 <= j < n ==> (#[trigger] parts@[j]).start == prefix_total(counts@, j)
                        && parts@[j].end == prefix_total(counts@, j + 1),
                total == rowss_spec.flatten().len(),
                prefix_total(counts@, n as int) == total,
                dest.wf(),
                dest.state == DestState::Allocated,
                dest.schema@ == cols,
                dest.total == total,
                0 <= p <= n,
                dest.rows().take(prefix_total(counts@, p as int)) == rowss_spec.take(
                    p as int,
                ).flatten(),
                forall|j: int| 0 <= j < p ==> rows_match(cols, #[trigger] rowss_spec[j]),
            decreases n - p,
        {
            let start = parts[p].start;
            let end = parts[p].end;
            proof {
                lemma_prefix_total_is_flatten_len(counts@, rowss_spec, p as int);
                lemma_prefix_total_is_flatten_len(counts@, rowss_spec, p as int + 1);
                lemma_flatten_take_le(rowss_spec, p as int + 1);
                assert(rowss_spec.take(p as int + 1) =~= rowss_spec.take(p as int).push(
                    rowss_spec[p as int],
                ));
                rowss_spec.take(p as int).lemma_flatten_push(rowss_spec[p as int]);
            }
            let m = rowss[p].len();
            let mut j: usize = 0;
            while j < m
                invariant
                    old(self).state == DispatchState::Created,
                    old(dest).state == DestState::Unallocated,
                    self.source == old(self).source,
                    self.queries == old(self).queries,
                    self.schema == old(self).schema,
                    self.transport == old(self).transport,
                    src == old(self).source,
                    qs == old(self).queries@,
                    rowss_spec == fetched_rows(src, qs),
                    effective_schema(src, old(self).schema) == Ok::<Seq<ColumnDef>, ErrKind>(cols),
                    old(self).transport.supports_all(cols),
                    sch@ == cols,
                    first_fetch_err(src, qs) is None,
                    n == qs.len(),
                    rowss@.len() == n,
                    rowss_spec.len() == n,
                    0 <= p < n,
                    forall|x: int|
                        0 <= x < n ==> rows_view((#[trigger] rowss@[x])@) == rowss_spec[x],
                    m == rowss_spec[p as int].len(),
                    m == rowss@[p as int]@.len(),
                    0 <= j <= m,
                    start == rowss_spec.take(p as int).flatten().len(),
                    end == start + m,
                    end <= total,
                    total == rowss_spec.flatten().len(),
                    dest.wf(),
                    dest.state == DestState::Allocated,
                    dest.schema@ == cols,
                    dest.total == total,
                    dest.rows().take(start + j) == rowss_spec.take(p as int).flatten()
                        + rowss_spec[p as int].take(j as int),
                    forall|x: int|
                        0 <= x < j ==> row_matches(cols, #[trigger] rowss_spec[p as int][x]),
                decreases m - j,
            {
                let ghost prev_rows = dest.rows();
                let rowref = &rowss[p];
                match self.transport.convert_row(&sch, &rowref[j].cells) {
                    Ok(cells) => {
                        proof {
                            assert(rowss@[p as int]@[j as int]@ == rowss_spec[p as int][j as int]);
                        }
                        match dest.write_row(start, end, start + j, cells) {
                            Ok(()) => {},
                            Err(e) => {
                                // the row index lies in this partition's own
                                // range and the arity was just converted
                                // against the schema, so the write cannot be
                                // refused
                                proof {
                                    assert(false);
                                }
                                self.state = DispatchState::Aborted;
                                return Err(e);
                            },
                        }
                        proof {
                            assert(dest.rows().take(start + j) =~= prev_rows.take(
                                start + j as int,
                            ));
                            assert(dest.rows().take(start + j + 1) =~= dest.rows().take(start + j)
                                .push(dest.rows()[start + j]));
                            assert(rowss_spec[p as int].take(j as int + 1)
                                =~= rowss_spec[p as int].take(j as int).push(
                                rowss_spec[p as int][j as int],
                            ));
                        }
                    },
                    Err(e) => {
                        proof {
                            assert(rowss@[p as int]@[j as int]@ == rowss_spec[p as int][j as int]);
                            assert(!rows_match(cols, rowss_spec[p as int]));
                        }
                        dest.abort();
                        self.state = DispatchState::Aborted;
                        return Err(e);
                    },
                }
                j += 1;
            }
            proof {
                assert(rowss_spec[p as int].take(m as int) =~= rowss_spec[p as int]);
                assert(rows_match(cols, rowss_spec[p as int]));
            }
            p += 1;
        }
        proof {
            assert(rowss_spec.take(n as int) =~= rowss_spec);
            assert(dest.rows().len() == total);
            assert(dest.rows().take(total as int) =~= dest.rows());
            assert(dest.rows() == rowss_spec.flatten());
        }
        self.state = DispatchState::Committed;
        Ok(())
    }

    /// The checked run path: identical outcome to `run`, with the failure
    /// check guaranteed to happen strictly before any materialization —
    /// the handle can only ever be taken from a destination that is still
    /// live, so no observer sees a half-written result.
    pub fn run_checked(&mut self, dest: &mut MemDestination) -> (r: Result<(), CxError>)
        requires
            old(dest).wf(),
        ensures
            final(self).source == old(self).source,
            final(self).queries == old(self).queries,
            final(self).schema == old(self).schema,
            final(self).transport == old(self).transport,
            final(dest).wf(),
            ({
                let outcome = run_outcome(
                    old(self).source,
                    old(self).queries@,
                    old(self).schema,
                    old(self).transport,
                );
                if old(self).state == DispatchState::Created && old(dest).state
                    == DestState::Unallocated {
                    match outcome {
                        Ok(rows) => {
                            &&& r is Ok
                            &&& final(self).state == DispatchState::Committed
                            &&& final(dest).state == DestState::Allocated
                            &&& final(dest).total == rows.len()
                            &&& final(dest).rows() == rows
                        },
                        Err(k) => {
                            &&& r matches Err(e) && e.kind() == k
                            &&& final(self).state == DispatchState::Aborted
                            &&& final(dest).state != DestState::Allocated
                        },
                    }
                } else {
                    &&& r matches Err(e) && e.kind() == ErrKind::Other
                    &&& *final(self) == *old(self)
                    &&& *final(dest) == *old(dest)
                }
            }),
    {
        self.run(dest)
    }
}

} // verus!
