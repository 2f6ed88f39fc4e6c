//! The source capability contract, and the in-memory source that serves
//! tests and the federated recombination step.

use vstd::prelude::*;
use crate::errors::{CxError, ErrKind};
use crate::query::Query;
use crate::strutil::str_eq;
use crate::types::{clone_schema, clone_value, ColumnDef, Schema, Value};

verus! {

/// One fetched row of canonical values.
#[derive(Debug)]
pub struct Row {
    pub cells: Vec<Value>,
}

impl View for Row {
    type V = Seq<Value>;

    open spec fn view(&self) -> Seq<Value> {
        self.cells@
    }
}

pub open spec fn rows_view(rs: Seq<Row>) -> Seq<Seq<Value>> {
    rs.map_values(|r: Row| r@)
}

/// What a probe must return, held against the source's own schema spec.
pub open spec fn probe_post(r: Result<Schema, CxError>, s: Result<Seq<ColumnDef>, ErrKind>) -> bool {
    match (r, s) {
        (Ok(sch), Ok(cols)) => sch@ == cols,
        (Err(e), Err(k)) => e.kind() == k,
        _ => false,
    }
}

/// What a fetch must return, held against the source's own row spec.
pub open spec fn fetch_post(
    r: Result<Vec<Row>, CxError>,
    s: Result<Seq<Seq<Value>>, ErrKind>,
) -> bool {
    match (r, s) {
        (Ok(rows), Ok(rvs)) => rows_view(rows@) == rvs,
        (Err(e), Err(k)) => e.kind() == k,
        _ => false,
    }
}

/// The capability contract of a pluggable source: it connects, executes one
/// sub-query, and yields typed rows in canonical form, in a stable column
/// order matching its probed schema. What a source value answers is fixed by
/// its two spec functions, so every fetch against an unchanged source is
/// deterministic — the ground for both row-order reproducibility and for
/// reusing one partitioning across a probing pass and a fetch pass.
pub trait Source {
    /// The schema this source reports for the run, or the kind of error its
    /// probe fails with.
    spec fn schema_of(&self) -> Result<Seq<ColumnDef>, ErrKind>;

    /// The rows this source yields for one query string, or the kind of
    /// error the fetch fails with.
    spec fn rows_of(&self, sql: Seq<char>) -> Result<Seq<Seq<Value>>, ErrKind>;

    /// Connects and infers the result schema.
    fn probe(&self) -> (r: Result<Schema, CxError>)
        ensures
            probe_post(r, self.schema_of()),
    ;

    /// Executes one sub-query and yields its rows.
    fn fetch(&self, q: &Query) -> (r: Result<Vec<Row>, CxError>)
        ensures
            fetch_post(r, self.rows_of(q.sql@)),
    ;
}

pub fn clone_row(r: &Row) -> (out: Row)
    ensures
        out@ == r@,
{
    let mut cells: Vec<Value> = Vec::new();
    let mut i: usize = 0;
    while i < r.cells.len()
        invariant
            0 <= i <= r.cells@.len(),
            cells@.len() == i,
            forall|j: int| 0 <= j < i ==> cells@[j] == r.cells@[j],
        decreases r.cells@.len() - i,
    {
        cells.push(clone_value(&r.cells[i]));
        i += 1;
    }
    let out = Row { cells };
    proof {
        assert(out@ =~= r@);
    }
    out
}

pub fn clone_rows(rs: &Vec<Row>) -> (out: Vec<Row>)
    ensures
        rows_view(out@) == rows_view(rs@),
{
    let mut out: Vec<Row> = Vec::new();
    let mut i: usize = 0;
    while i < rs.len()
        invariant
            0 <= i <= rs@.len(),
            out@.len() == i,
            forall|j: int| 0 <= j < i ==> (#[trigger] out@[j])@ == rs@[j]@,
        decreases rs@.len() - i,
    {
        out.push(clone_row(&rs[i]));
        i += 1;
    }
    proof {
        assert(rows_view(out@) =~= rows_view(rs@));
    }
    out
}

/// One named result set of an in-memory source.
#[derive(Debug)]
pub struct MemTable {
    pub sql: String,
    pub rows: Vec<Row>,
}

/// An in-memory source: serves, for each query, the rows stored under the
/// first table whose query string equals it, and fails the fetch as a
/// query-execution error otherwise. An unreachable source refuses both the
/// probe and every fetch with a connection error, the way a source whose
/// database is down would.
#[derive(Debug)]
pub struct MemSource {
    pub schema: Schema,
    pub tables: Vec<MemTable>,
    pub reachable: bool,
}

/// The rows an in-memory source answers for `sql`.
pub open spec fn lookup_rows(tables: Seq<MemTable>, sql: Seq<char>) -> Result<
    Seq<Seq<Value>>,
    ErrKind,
>
    decreases tables.len(),
{
    if tables.len() == 0 {
        Err(ErrKind::QueryExecution)
    } else if tables[0].sql@ == sql {
        Ok(rows_view(tables[0].rows@))
    } else {
        lookup_rows(tables.drop_first(), sql)
    }
}

impl Source for MemSource {
    open spec fn schema_of(&self) -> Result<Seq<ColumnDef>, ErrKind> {
        if self.reachable {
            Ok(self.schema@)
        } else {
            Err(ErrKind::Connection)
        }
    }

    open spec fn rows_of(&self, sql: Seq<char>) -> Result<Seq<Seq<Value>>, ErrKind> {
        if self.reachable {
            lookup_rows(self.tables@, sql)
        } else {
            Err(ErrKind::Connection)
        }
    }

    fn probe(&self) -> (r: Result<Schema, CxError>) {
        if !self.reachable {
            return Err(CxError::ConnectionError(String::from_str("source unreachable")));
        }
        Ok(clone_schema(&self.schema))
    }

    fn fetch(&self, q: &Query) -> (r: Result<Vec<Row>, CxError>) {
        if !self.reachable {
            return Err(CxError::ConnectionError(String::from_str("source unreachable")));
        }
        proof {
            assert(self.tables@.skip(0) =~= self.tables@);
        }
        let mut i: usize = 0;
        while i < self.tables.len()
            invariant
                self.reachable,
                0 <= i <= self.tables@.len(),
                lookup_rows(self.tables@, q.sql@) == lookup_rows(
                    self.tables@.skip(i as int),
                    q.sql@,
                ),
            decreases self.tables@.len() - i,
        {
            proof {
                assert(self.tables@.skip(i as int)[0] == self.tables@[i as int]);
            }
            if str_eq(self.tables[i].sql.as_str(), q.sql.as_str()) {
                return Ok(clone_rows(&self.tables[i].rows));
            }
            proof {
                assert(self.tables@.skip(i as int).drop_first() =~= self.tables@.skip(
                    i as int + 1,
                ));
            }
            i += 1;
        }
        Err(CxError::QueryExecutionError(q.sql.clone()))
    }
}

} // verus!
