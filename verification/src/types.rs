//! The type system: the closed set of canonical value kinds, the canonical
//! value representation, schemas, and the per-destination type-name mapping.

use vstd::prelude::*;
use crate::errors::{CxError, ErrKind};
use crate::strutil::str_eq;

verus! {

/// The closed set of canonical column types. The flag is the nullability of
/// the column, fixed for the run's lifetime once determined.
///
/// A 64-bit float column is tagged `F64`; its cells carry the IEEE-754 bit
/// pattern of the value (see [`Value::F64Bits`]), so the transport layer
/// moves floats without ever computing on them.
#[derive(Clone, Copy, Debug, PartialEq, Eq, Structural)]
pub enum DataType {
    U64(bool),
    F64(bool),
    Bool(bool),
    Str(bool),
}

impl DataType {
    pub open spec fn nullable(self) -> bool {
        match self {
            DataType::U64(n) => n,
            DataType::F64(n) => n,
            DataType::Bool(n) => n,
            DataType::Str(n) => n,
        }
    }

    pub fn is_nullable(&self) -> (r: bool)
        ensures
            r == self.nullable(),
    {
        match *self {
            DataType::U64(n) => n,
            DataType::F64(n) => n,
            DataType::Bool(n) => n,
            DataType::Str(n) => n,
        }
    }
}

/// One canonical cell value, already decoded by a source. Protocol-specific
/// decoding is invisible above this layer.
#[derive(Clone, Debug, PartialEq)]
pub enum Value {
    U64(u64),
    /// The IEEE-754 bit pattern of a 64-bit float.
    F64Bits(u64),
    Bool(bool),
    Str(String),
    Null,
}

/// Whether a cell value is admissible in a column of type `dt`: the base
/// kinds must agree, and `Null` is admissible exactly in nullable columns.
pub open spec fn value_matches(dt: DataType, v: Value) -> bool {
    match v {
        Value::U64(_) => dt is U64,
        Value::F64Bits(_) => dt is F64,
        Value::Bool(_) => dt is Bool,
        Value::Str(_) => dt is Str,
        Value::Null => dt.nullable(),
    }
}

pub fn check_value(dt: &DataType, v: &Value) -> (r: bool)
    ensures
        r == value_matches(*dt, *v),
{
    match v {
        Value::U64(_) => matches!(dt, DataType::U64(_)),
        Value::F64Bits(_) => matches!(dt, DataType::F64(_)),
        Value::Bool(_) => matches!(dt, DataType::Bool(_)),
        Value::Str(_) => matches!(dt, DataType::Str(_)),
        Value::Null => dt.is_nullable(),
    }
}

/// A clone of `v` that verified code knows to be equal to `v`.
pub fn clone_value(v: &Value) -> (r: Value)
    ensures
        r == *v,
{
    match v {
        Value::U64(x) => Value::U64(*x),
        Value::F64Bits(x) => Value::F64Bits(*x),
        Value::Bool(x) => Value::Bool(*x),
        Value::Str(s) => Value::Str(s.clone()),
        Value::Null => Value::Null,
    }
}

/// One schema column: a name and a canonical type.
#[derive(Debug)]
pub struct ColumnDef {
    pub name: String,
    pub dtype: DataType,
}

/// An ordered sequence of columns: the single source of truth for buffer
/// layout and for source/destination compatibility checks.
#[derive(Debug)]
pub struct Schema {
    pub columns: Vec<ColumnDef>,
}

impl View for Schema {
    type V = Seq<ColumnDef>;

    open spec fn view(&self) -> Seq<ColumnDef> {
        self.columns@
    }
}

impl Schema {
    pub fn len(&self) -> (r: usize)
        ensures
            r == self@.len(),
    {
        self.columns.len()
    }
}

pub fn clone_schema(s: &Schema) -> (r: Schema)
    ensures
        r@ == s@,
{
    let mut columns: Vec<ColumnDef> = Vec::new();
    let mut i: usize = 0;
    while i < s.columns.len()
        invariant
            0 <= i <= s.columns@.len(),
            columns@.len() == i,
            forall|j: int| 0 <= j < i ==> columns@[j] == s.columns@[j],
        decreases s.columns@.len() - i,
    {
        let c = &s.columns[i];
        columns.push(ColumnDef { name: c.name.clone(), dtype: c.dtype });
        i += 1;
    }
    let r = Schema { columns };
    proof {
        assert(r.columns@ =~= s.columns@);
    }
    r
}

/// Whether one full row is admissible under the schema columns `sch`: the
/// arity agrees and each cell matches its column's type.
pub open spec fn row_matches(sch: Seq<ColumnDef>, row: Seq<Value>) -> bool {
    &&& row.len() == sch.len()
    &&& forall|c: int| 0 <= c < row.len() ==> value_matches(sch[c].dtype, row[c])
}

/// The destination type name of each canonical type, for the dataframe
/// backend. Total and injective: a type's nullable and non-nullable forms map
/// to distinct spellings, so nullability round-trips through the name alone.
pub open spec fn dtype_name_spec(dt: DataType) -> Seq<char> {
    match dt {
        DataType::U64(n) => if n {
            "UInt64"@
        } else {
            "uint64"@
        },
        DataType::F64(n) => if n {
            "Float64"@
        } else {
            "float64"@
        },
        DataType::Bool(n) => if n {
            "boolean"@
        } else {
            "bool"@
        },
        DataType::Str(n) => if n {
            "string"@
        } else {
            "object"@
        },
    }
}

/// The inverse of `dtype_name_spec`: recognizes exactly the destination
/// spellings of the canonical types.
pub open spec fn parse_type_spec(s: Seq<char>) -> Option<DataType> {
    if s == "uint64"@ {
        Some(DataType::U64(false))
    } else if s == "UInt64"@ {
        Some(DataType::U64(true))
    } else if s == "float64"@ {
        Some(DataType::F64(false))
    } else if s == "Float64"@ {
        Some(DataType::F64(true))
    } else if s == "bool"@ {
        Some(DataType::Bool(false))
    } else if s == "boolean"@ {
        Some(DataType::Bool(true))
    } else if s == "object"@ {
        Some(DataType::Str(false))
    } else if s == "string"@ {
        Some(DataType::Str(true))
    } else {
        None
    }
}

/// Mapping of a canonical type to its destination type name.
pub trait PandasDType {
    spec fn dtype_spec(&self) -> Seq<char>;

    fn dtype(&self) -> (r: &'static str)
        ensures
            r@ == self.dtype_spec(),
    ;
}

impl PandasDType for DataType {
    open spec fn dtype_spec(&self) -> Seq<char> {
        dtype_name_spec(*self)
    }

    fn dtype(&self) -> (r: &'static str) {
        match *self {
            DataType::U64(false) => "uint64",
            DataType::U64(true) => "UInt64",
            DataType::F64(false) => "float64",
            DataType::F64(true) => "Float64",
            DataType::Bool(false) => "bool",
            DataType::Bool(true) => "boolean",
            DataType::Str(false) => "object",
            DataType::Str(true) => "string",
        }
    }
}

/// Parses one dialect-specific type name; fails with an unknown-type error
/// for unrecognized names.
pub fn parse_external_type(name: &str) -> (r: Result<DataType, CxError>)
    ensures
        match parse_type_spec(name@) {
            Some(dt) => r == Ok::<DataType, CxError>(dt),
            None => r matches Err(e) && e.kind() == ErrKind::UnknownType && e.payload() == name@,
        },
{
    if str_eq(name, "uint64") {
        Ok(DataType::U64(false))
    } else if str_eq(name, "UInt64") {
        Ok(DataType::U64(true))
    } else if str_eq(name, "float64") {
        Ok(DataType::F64(false))
    } else if str_eq(name, "Float64") {
        Ok(DataType::F64(true))
    } else if str_eq(name, "bool") {
        Ok(DataType::Bool(false))
    } else if str_eq(name, "boolean") {
        Ok(DataType::Bool(true))
    } else if str_eq(name, "object") {
        Ok(DataType::Str(false))
    } else if str_eq(name, "string") {
        Ok(DataType::Str(true))
    } else {
        Err(CxError::UnknownPandasType(String::from_str(name)))
    }
}

/// Converts one ordered list of declared column type names, as handed across
/// the host-runtime boundary, into canonical types; the first unknown name
/// fails the whole conversion.
pub fn parse_schema_types(names: &Vec<String>) -> (r: Result<Vec<DataType>, CxError>)
    ensures
        match r {
            Ok(dts) => {
                &&& dts@.len() == names@.len()
                &&& forall|i: int|
                    0 <= i < names@.len() ==> parse_type_spec(names@[i]@) == Some(#[trigger] dts@[i])
            },
            Err(e) => e.kind() == ErrKind::UnknownType && exists|i: int|
                0 <= i < names@.len() && parse_type_spec(#[trigger] names@[i]@) is None,
        },
{
    let mut dts: Vec<DataType> = Vec::new();
    let mut i: usize = 0;
    while i < names.len()
        invariant
            0 <= i <= names@.len(),
            dts@.len() == i,
            forall|j: int|
                0 <= j < i ==> parse_type_spec(names@[j]@) == Some(#[trigger] dts@[j]),
        decreases names@.len() - i,
    {
        match parse_external_type(names[i].as_str()) {
            Ok(dt) => dts.push(dt),
            Err(e) => {
                return Err(e);
            },
        }
        i += 1;
    }
    Ok(dts)
}

/// Nullability round-trip: every canonical type, converted to its destination
/// type name and parsed back, yields the same type again — in particular a
/// nullable type comes back nullable.
pub proof fn lemma_type_name_round_trip(dt: DataType)
    ensures
        parse_type_spec(dtype_name_spec(dt)) == Some(dt),
{
    reveal_strlit("uint64");
    reveal_strlit("UInt64");
    reveal_strlit("float64");
    reveal_strlit("Float64");
    reveal_strlit("bool");
    reveal_strlit("boolean");
    reveal_strlit("object");
    reveal_strlit("string");
    assert("uint64"@.len() == 6);
    assert("UInt64"@.len() == 6);
    assert("float64"@.len() == 7);
    assert("Float64"@.len() == 7);
    assert("bool"@.len() == 4);
    assert("boolean"@.len() == 7);
    assert("object"@.len() == 6);
    assert("string"@.len() == 6);
    assert("uint64"@[0] == 'u');
    assert("UInt64"@[0] == 'U');
    assert("float64"@[0] == 'f');
    assert("Float64"@[0] == 'F');
    assert("bool"@[0] == 'b');
    assert("boolean"@[0] == 'b');
    assert("object"@[0] == 'o');
    assert("string"@[0] == 's');
}

/// The destination type-name mapping is injective: distinct canonical types
/// never share a spelling.
pub proof fn lemma_type_name_injective(dt1: DataType, dt2: DataType)
    requires
        dtype_name_spec(dt1) == dtype_name_spec(dt2),
    ensures
        dt1 == dt2,
{
    lemma_type_name_round_trip(dt1);
    lemma_type_name_round_trip(dt2);
}

} // verus!
