//! The in-memory columnar destination: preallocated column buffers,
//! range-checked row writes, an abort flag, and the finalized result handle.

use vstd::prelude::*;
use crate::errors::{CxError, ErrKind};
use crate::types::{clone_schema, clone_value, Schema, Value};

verus! {

/// The lifecycle of a destination buffer set.
#[derive(Clone, Copy, Debug, PartialEq, Eq, Structural)]
pub enum DestState {
    Unallocated,
    Allocated,
    Aborted,
}

/// The row-major contents of a column grid: row `r` is the sequence of the
/// `r`-th cells of all columns.
pub open spec fn grid_rows(columns: Seq<Vec<Value>>, total: nat) -> Seq<Seq<Value>> {
    Seq::new(total, |r: int| Seq::new(columns.len(), |c: int| columns[c]@[r]))
}

/// The destination buffer set: one preallocated column store per schema
/// column, shared across partitions, where each partition owns a disjoint
/// row range. A write is bounds-checked against the writer's declared range,
/// so an out-of-range write fails fast instead of silently corrupting a
/// neighbouring partition's rows, and an aborted destination rejects every
/// further write.
#[derive(Debug)]
pub struct MemDestination {
    pub schema: Schema,
    pub columns: Vec<Vec<Value>>,
    pub total: usize,
    pub state: DestState,
}

impl MemDestination {
    /// Well-formedness: one column buffer per schema column, each holding
    /// exactly the allocated number of rows.
    pub open spec fn wf(self) -> bool {
        &&& self.columns@.len() == self.schema@.len()
        &&& forall|c: int|
            0 <= c < self.columns@.len() ==> (#[trigger] self.columns@[c])@.len() == self.total
    }

    pub open spec fn rows(self) -> Seq<Seq<Value>> {
        grid_rows(self.columns@, self.total as nat)
    }

    pub fn new() -> (d: MemDestination)
        ensures
            d.state == DestState::Unallocated,
            d.wf(),
            d.schema@.len() == 0,
            d.total == 0,
    {
        MemDestination {
            schema: Schema { columns: Vec::new() },
            columns: Vec::new(),
            total: 0,
            state: DestState::Unallocated,
        }
    }

    /// Preallocates one column buffer per schema column for the whole
    /// result, every cell null. Runs exactly once: a second call fails.
    pub fn allocate(&mut self, schema: &Schema, total: usize) -> (r: Result<(), CxError>)
        ensures
            r is Ok <==> old(self).state == DestState::Unallocated,
            r matches Err(e) ==> e.kind() == ErrKind::Other && *final(self) == *old(self),
            r is Ok ==> {
                &&& final(self).state == DestState::Allocated
                &&& final(self).schema@ == schema@
                &&& final(self).total == total
                &&& final(self).wf()
                &&& final(self).rows() == Seq::new(
                    total as nat,
                    |r: int| Seq::new(schema@.len(), |c: int| Value::Null),
                )
            },
    {
        if !matches!(self.state, DestState::Unallocated) {
            return Err(CxError::Other(String::from_str("destination already allocated")));
        }
        let ncols = schema.columns.len();
        let mut columns: Vec<Vec<Value>> = Vec::new();
        let mut c: usize = 0;
        while c < ncols
            invariant
                0 <= c <= ncols,
                columns@.len() == c,
                forall|j: int|
                    0 <= j < c ==> (#[trigger] columns@[j])@ == Seq::new(
                        total as nat,
                        |r: int| Value::Null,
                    ),
            decreases ncols - c,
        {
            let mut col: Vec<Value> = Vec::new();
            let mut rr: usize = 0;
            while rr < total
                invariant
                    0 <= rr <= total,
                    col@.len() == rr,
                    forall|k: int| 0 <= k < rr ==> col@[k] == Value::Null,
                decreases total - rr,
            {
                col.push(Value::Null);
                rr += 1;
            }
            proof {
                assert(col@ =~= Seq::new(total as nat, |r: int| Value::Null));
            }
            columns.push(col);
            c += 1;
        }
        self.schema = clone_schema(schema);
        self.columns = columns;
        self.total = total;
        self.state = DestState::Allocated;
        proof {
            assert(self.rows() =~~= Seq::new(
                total as nat,
                |r: int| Seq::new(schema@.len(), |c: int| Value::Null),
            ));
        }
        Ok(())
    }

    /// Writes one converted row at global row index `row`, on behalf of the
    /// writer cursor for the range `[start, end)`. Accepted only within that
    /// range, only inside the allocated buffers, only with the schema's
    /// arity, and only while the destination is live.
    pub fn write_row(&mut self, start: usize, end: usize, row: usize, cells: Vec<Value>) -> (r:
        Result<(), CxError>)
        requires
            old(self).wf(),
        ensures
            r is Ok <==> (old(self).state == DestState::Allocated && start <= row && row < end
                && end <= old(self).total && cells@.len() == old(self).schema@.len()),
            r matches Err(e) ==> e.kind() == ErrKind::Other && *final(self) == *old(self),
            r is Ok ==> {
                &&& final(self).state == old(self).state
                &&& final(self).schema == old(self).schema
                &&& final(self).total == old(self).total
                &&& final(self).wf()
                &&& final(self).rows() == old(self).rows().update(row as int, cells@)
            },
    {
        if !matches!(self.state, DestState::Allocated) {
            return Err(CxError::Other(String::from_str("destination is not accepting writes")));
        }
        if !(start <= row && row < end && end <= self.total) {
            return Err(CxError::Other(String::from_str("write outside the assigned row range")));
        }
        if cells.len() != self.columns.len() {
            return Err(CxError::Other(String::from_str("row arity does not match the buffers")));
        }
        let ncols = cells.len();
        let mut c: usize = 0;
        while c < ncols
            invariant
                0 <= c <= ncols,
                old(self).wf(),
                old(self).state == DestState::Allocated,
                row < old(self).total,
                ncols == old(self).columns@.len(),
                cells@.len() == ncols,
                self.state == old(self).state,
                self.schema == old(self).schema,
                self.total == old(self).total,
                self.columns@.len() == old(self).columns@.len(),
                forall|j: int|
                    0 <= j < ncols ==> (#[trigger] self.columns@[j])@ == (if j < c {
                        old(self).columns@[j]@.update(row as int, cells@[j])
                    } else {
                        old(self).columns@[j]@
                    }),
            decreases ncols - c,
        {
            let ghost before = self.columns@;
            let mut col = self.columns.remove(c);
            col.set(row, clone_value(&cells[c]));
            self.columns.insert(c, col);
            proof {
                assert(self.columns@ =~= before.update(
                    c as int,
                    self.columns@[c as int],
                ));
            }
            c += 1;
        }
        proof {
            assert(self.rows() =~~= old(self).rows().update(row as int, cells@));
        }
        Ok(())
    }

    /// Sets the abort flag: every later write is rejected and the result is
    /// never materialized, so a failed run's partial output stays private.
    pub fn abort(&mut self)
        ensures
            final(self).state == DestState::Aborted,
            final(self).schema == old(self).schema,
            final(self).columns == old(self).columns,
            final(self).total == old(self).total,
    {
        self.state = DestState::Aborted;
    }

    /// Materializes the read-only result handle: the barrier at the end of a
    /// run. It consumes the destination, so the handle exists at most once,
    /// and it succeeds only on a live, fully allocated destination — an
    /// aborted run never exposes a result.
    pub fn finalize(self) -> (r: Result<ResultHandle, CxError>)
        requires
            self.wf(),
        ensures
            r is Ok <==> self.state == DestState::Allocated,
            r matches Err(e) ==> e.kind() == ErrKind::Other,
            r matches Ok(h) ==> {
                &&& h.schema == self.schema
                &&& h.total == self.total
                &&& h.wf()
                &&& h.rows() == self.rows()
            },
    {
        match self.state {
            DestState::Allocated => Ok(
                ResultHandle { schema: self.schema, columns: self.columns, total: self.total },
            ),
            DestState::Aborted => Err(
                CxError::Other(String::from_str("run aborted; no result was committed")),
            ),
            DestState::Unallocated => Err(
                CxError::Other(String::from_str("destination was never allocated")),
            ),
        }
    }
}

/// The finalized read-only view of a successful run, materialized exactly
/// once.
#[derive(Debug)]
pub struct ResultHandle {
    pub schema: Schema,
    pub columns: Vec<Vec<Value>>,
    pub total: usize,
}

impl ResultHandle {
    pub open spec fn wf(self) -> bool {
        &&& self.columns@.len() == self.schema@.len()
        &&& forall|c: int|
            0 <= c < self.columns@.len() ==> (#[trigger] self.columns@[c])@.len() == self.total
    }

    pub open spec fn rows(self) -> Seq<Seq<Value>> {
        grid_rows(self.columns@, self.total as nat)
    }

    /// The number of rows in the finished result.
    pub fn row_count(&self) -> (r: usize)
        ensures
            r == self.total,
            r == self.rows().len(),
    {
        self.total
    }

    pub fn column_count(&self) -> (r: usize)
        ensures
            r == self.columns@.len(),
    {
        self.columns.len()
    }

    /// The cell at `(row, col)`, or nothing outside the result.
    pub fn cell(&self, row: usize, col: usize) -> (r: Option<&Value>)
        requires
            self.wf(),
        ensures
            (row < self.total && col < self.columns@.len()) ==> (r matches Some(v) && *v
                == self.rows()[row as int][col as int]),
            !(row < self.total && col < self.columns@.len()) ==> r is None,
    {
        if col < self.columns.len() {
            let colv = &self.columns[col];
            if row < colv.len() {
                return Some(&colv[row]);
            }
        }
        None
    }
}

} // verus!
