//! Queries, partitions, and the partitioner that assigns each sub-query its
//! destination row range.

use vstd::prelude::*;
use crate::errors::{CxError, ErrKind};

verus! {

/// Whether a query string was handed in raw by the caller or derived while
/// partitioning.
#[derive(Clone, Copy, Debug, PartialEq, Eq, Structural)]
pub enum QueryOrigin {
    Raw,
    Derived,
}

/// An immutable wrapper around one executable query string plus its origin.
#[derive(Debug)]
pub struct Query {
    pub sql: String,
    pub origin: QueryOrigin,
}

impl Query {
    /// A raw query, exactly as the caller wrote it.
    pub fn naked(sql: String) -> (q: Query)
        ensures
            q.sql == sql,
            q.origin == QueryOrigin::Raw,
    {
        Query { sql, origin: QueryOrigin::Raw }
    }

    /// A query derived during partitioning.
    pub fn derived(sql: String) -> (q: Query)
        ensures
            q.sql == sql,
            q.origin == QueryOrigin::Derived,
    {
        Query { sql, origin: QueryOrigin::Derived }
    }
}

pub fn clone_query(q: &Query) -> (r: Query)
    ensures
        r == *q,
{
    Query { sql: q.sql.clone(), origin: q.origin }
}

/// A query bound to its destination row range `[start, end)`; owned
/// exclusively by the worker executing it.
#[derive(Debug)]
pub struct Partition {
    pub query: Query,
    pub start: usize,
    pub end: usize,
}

/// The sum of the first `i` row counts: the start of partition `i`.
pub open spec fn prefix_total(counts: Seq<usize>, i: int) -> int
    decreases i,
{
    if i <= 0 {
        0
    } else {
        prefix_total(counts, i - 1) + counts[i - 1]
    }
}

pub proof fn lemma_prefix_total_mono(counts: Seq<usize>, i: int, j: int)
    requires
        0 <= i <= j <= counts.len(),
    ensures
        prefix_total(counts, i) <= prefix_total(counts, j),
    decreases j - i,
{
    if i < j {
        lemma_prefix_total_mono(counts, i, j - 1);
    }
}

/// Expands the queries into partitions: partition `i` carries query `i` and
/// the row range `[prefix_total(i), prefix_total(i + 1))`, so the ranges are
/// consecutive and their lengths sum to the total row count. Fails when the
/// lists disagree in length or the total does not fit the machine.
pub fn partition_queries(queries: &Vec<Query>, counts: &Vec<usize>) -> (r: Result<
    Vec<Partition>,
    CxError,
>)
    ensures
        r is Ok <==> (queries@.len() == counts@.len() && prefix_total(counts@, counts@.len() as int)
            <= usize::MAX),
        r matches Err(e) ==> e.kind() == ErrKind::Other,
        r matches Ok(ps) ==> {
            &&& ps@.len() == queries@.len()
            &&& forall|i: int|
                0 <= i < ps@.len() ==> {
                    &&& (#[trigger] ps@[i]).query == queries@[i]
                    &&& ps@[i].start == prefix_total(counts@, i)
                    &&& ps@[i].end == prefix_total(counts@, i + 1)
                }
        },
{
    if queries.len() != counts.len() {
        return Err(CxError::Other(String::from_str("queries and row counts differ in length")));
    }
    let mut ps: Vec<Partition> = Vec::new();
    let mut acc: usize = 0;
    let mut i: usize = 0;
    while i < queries.len()
        invariant
            queries@.len() == counts@.len(),
            0 <= i <= queries@.len(),
            ps@.len() == i,
            acc == prefix_total(counts@, i as int),
            forall|k: int|
                0 <= k < i ==> {
                    &&& (#[trigger] ps@[k]).query == queries@[k]
                    &&& ps@[k].start == prefix_total(counts@, k)
                    &&& ps@[k].end == prefix_total(counts@, k + 1)
                },
        decreases queries@.len() - i,
    {
        let c = counts[i];
        match acc.checked_add(c) {
            Some(next) => {
                ps.push(Partition { query: clone_query(&queries[i]), start: acc, end: next });
                acc = next;
            },
            None => {
                proof {
                    lemma_prefix_total_mono(counts@, i as int + 1, counts@.len() as int);
                }
                return Err(CxError::Other(String::from_str("total row count overflows")));
            },
        }
        i += 1;
    }
    Ok(ps)
}

/// The core invariant enabling lock-free concurrent writes: the row ranges
/// assigned by the partitioner are ordered and pairwise disjoint, so no two
/// partitions ever write the same destination row.
pub proof fn lemma_partition_ranges_disjoint(ps: Seq<Partition>, counts: Seq<usize>)
    requires
        ps.len() <= counts.len(),
        forall|i: int|
            0 <= i < ps.len() ==> (#[trigger] ps[i]).start == prefix_total(counts, i) && ps[i].end
                == prefix_total(counts, i + 1),
    ensures
        forall|i: int, j: int| 0 <= i < j < ps.len() ==> ps[i].end <= ps[j].start,
{
    assert forall|i: int, j: int| 0 <= i < j < ps.len() implies ps[i].end <= ps[j].start by {
        lemma_prefix_total_mono(counts, i + 1, j);
    }
}

} // verus!
