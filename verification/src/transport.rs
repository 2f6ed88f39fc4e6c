//! The transport: the typed conversion layer binding one source family to
//! one destination family.

use vstd::prelude::*;
use crate::errors::{CxError, ErrKind};
use crate::types::{
    check_value, clone_value, row_matches, value_matches, ColumnDef, DataType, PandasDType, Schema,
    Value,
};

verus! {

/// Converts each canonical value a source can produce into a destination
/// cell. It lists the canonical types it has conversions for; a type outside
/// that list is refused when the dispatcher is constructed, never as a
/// runtime surprise. A transport performs no I/O and holds no
/// partition-specific state, so it is safely shared read-only by every
/// concurrently running worker.
#[derive(Debug)]
pub struct Transport {
    pub conversions: Vec<DataType>,
}

impl Transport {
    pub open spec fn supports(self, dt: DataType) -> bool {
        self.conversions@.contains(dt)
    }

    pub open spec fn supports_all(self, sch: Seq<ColumnDef>) -> bool {
        forall|i: int| 0 <= i < sch.len() ==> self.supports(#[trigger] sch[i].dtype)
    }

    pub fn new(conversions: Vec<DataType>) -> (t: Transport)
        ensures
            t.conversions == conversions,
    {
        Transport { conversions }
    }

    pub fn supports_exec(&self, dt: &DataType) -> (r: bool)
        ensures
            r == self.supports(*dt),
    {
        let mut i: usize = 0;
        while i < self.conversions.len()
            invariant
                0 <= i <= self.conversions@.len(),
                forall|j: int| 0 <= j < i ==> self.conversions@[j] != *dt,
            decreases self.conversions@.len() - i,
        {
            if self.conversions[i] == *dt {
                return true;
            }
            i += 1;
        }
        false
    }

    /// Validates that every schema column has a conversion; the failure is
    /// the construction-time unsupported-type error.
    pub fn check_schema(&self, sch: &Schema) -> (r: Result<(), CxError>)
        ensures
            r is Ok <==> self.supports_all(sch@),
            r matches Err(e) ==> e.kind() == ErrKind::UnsupportedType,
    {
        let mut i: usize = 0;
        while i < sch.columns.len()
            invariant
                0 <= i <= sch@.len(),
                forall|j: int| 0 <= j < i ==> self.supports(#[trigger] sch@[j].dtype),
            decreases sch@.len() - i,
        {
            if !self.supports_exec(&sch.columns[i].dtype) {
                return Err(
                    CxError::UnsupportedTypeError(String::from_str(sch.columns[i].dtype.dtype())),
                );
            }
            i += 1;
        }
        Ok(())
    }

    /// Converts one canonical value into a destination cell; defined for
    /// every type the transport supports, and failing exactly on values that
    /// do not match the declared column type.
    pub fn convert(&self, dt: &DataType, v: &Value) -> (r: Result<Value, CxError>)
        requires
            self.supports(*dt),
        ensures
            r is Ok <==> value_matches(*dt, *v),
            r matches Ok(c) ==> c == *v,
            r matches Err(e) ==> e.kind() == ErrKind::SchemaMismatch,
    {
        if check_value(dt, v) {
            Ok(clone_value(v))
        } else {
            Err(CxError::SchemaError(String::from_str("value does not match the declared column type")))
        }
    }

    /// Converts one full row of canonical values into destination cells;
    /// succeeds exactly when the row matches the schema.
    pub fn convert_row(&self, sch: &Schema, cells: &Vec<Value>) -> (r: Result<Vec<Value>, CxError>)
        requires
            self.supports_all(sch@),
        ensures
            r is Ok <==> row_matches(sch@, cells@),
            r matches Ok(out) ==> out@ == cells@,
            r matches Err(e) ==> e.kind() == ErrKind::SchemaMismatch,
    {
        if cells.len() != sch.columns.len() {
            return Err(CxError::SchemaError(String::from_str("row arity does not match the schema")));
        }
        let mut out: Vec<Value> = Vec::new();
        let mut c: usize = 0;
        while c < cells.len()
            invariant
                0 <= c <= cells@.len(),
                cells@.len() == sch@.len(),
                self.supports_all(sch@),
                out@.len() == c,
                forall|j: int| 0 <= j < c ==> out@[j] == cells@[j],
                forall|j: int| 0 <= j < c ==> value_matches(sch@[j].dtype, #[trigger] cells@[j]),
            decreases cells@.len() - c,
    {
            match self.convert(&sch.columns[c].dtype, &cells[c]) {
                Ok(x) => out.push(x),
                Err(e) => {
                    return Err(e);
                },
            }
            c += 1;
        }
        proof {
            assert(out@ =~= cells@);
        }
        Ok(out)
    }
}

} // verus!
