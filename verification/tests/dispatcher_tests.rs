use connectorx::destination::MemDestination;
use connectorx::dispatcher::Dispatcher;
use connectorx::errors::{CxError, ErrKind};
use connectorx::query::{partition_queries, Query, QueryOrigin};
use connectorx::source::{MemSource, MemTable, Row};
use connectorx::transport::Transport;
use connectorx::types::{ColumnDef, DataType, Schema, Value};

fn u64_schema() -> Schema {
    Schema {
        columns: vec![ColumnDef { name: "id".to_string(), dtype: DataType::U64(false) }],
    }
}

fn u64_row(v: u64) -> Row {
    Row { cells: vec![Value::U64(v)] }
}

fn full_transport() -> Transport {
    Transport::new(vec![
        DataType::U64(false),
        DataType::U64(true),
        DataType::F64(false),
        DataType::F64(true),
        DataType::Bool(false),
        DataType::Bool(true),
        DataType::Str(false),
        DataType::Str(true),
    ])
}

const Q1: &str = "SELECT id FROM t WHERE id < 5";
const Q2: &str = "SELECT id FROM t WHERE id >= 5";

fn split_source() -> MemSource {
    MemSource {
        schema: u64_schema(),
        tables: vec![
            MemTable {
                sql: Q1.to_string(),
                rows: vec![u64_row(0), u64_row(1), u64_row(2), u64_row(3)],
            },
            MemTable { sql: Q2.to_string(), rows: vec![u64_row(5), u64_row(6), u64_row(7)] },
        ],
        reachable: true,
    }
}

fn split_queries() -> Vec<Query> {
    vec![Query::naked(Q1.to_string()), Query::naked(Q2.to_string())]
}

#[test]
fn two_partition_scenario_writes_seven_rows_in_order() {
    let mut d =
        Dispatcher::new(split_source(), split_queries(), Some(u64_schema()), full_transport())
            .unwrap();
    let mut dest = MemDestination::new();
    d.run(&mut dest).unwrap();
    let handle = dest.finalize().unwrap();
    assert_eq!(handle.row_count(), 7);
    assert_eq!(handle.column_count(), 1);
    let expected = [0u64, 1, 2, 3, 5, 6, 7];
    for (r, v) in expected.iter().enumerate() {
        assert_eq!(handle.cell(r, 0).unwrap(), &Value::U64(*v));
    }
    assert!(handle.cell(7, 0).is_none());
}

#[test]
fn row_count_is_the_sum_of_partition_counts() {
    let mut d =
        Dispatcher::new(split_source(), split_queries(), Some(u64_schema()), full_transport())
            .unwrap();
    let mut dest = MemDestination::new();
    d.run(&mut dest).unwrap();
    let handle = dest.finalize().unwrap();
    assert_eq!(handle.row_count(), 4 + 3);
}

#[test]
fn identical_runs_produce_identical_contents() {
    let mut contents: Vec<Vec<Value>> = Vec::new();
    for _ in 0..2 {
        let mut d =
            Dispatcher::new(split_source(), split_queries(), Some(u64_schema()), full_transport())
                .unwrap();
        let mut dest = MemDestination::new();
        d.run(&mut dest).unwrap();
        let handle = dest.finalize().unwrap();
        let mut rows: Vec<Value> = Vec::new();
        for r in 0..handle.row_count() {
            rows.push(handle.cell(r, 0).unwrap().clone());
        }
        contents.push(rows);
    }
    assert_eq!(contents[0], contents[1]);
}

#[test]
fn missing_conversion_fails_before_any_fetch() {
    let narrow = Transport::new(vec![DataType::Bool(false)]);
    let r = Dispatcher::new(split_source(), split_queries(), Some(u64_schema()), narrow);
    match r {
        Err(e) => assert_eq!(e.kind_exec(), ErrKind::UnsupportedType),
        Ok(_) => panic!("expected an unsupported-type error at construction"),
    }
}

#[test]
fn failing_partition_aborts_and_the_result_is_never_exposed() {
    // partition 1 of 2 holds a row that does not match the schema, so it
    // fails after partition 0 already wrote its range
    let source = MemSource {
        schema: u64_schema(),
        tables: vec![
            MemTable { sql: Q1.to_string(), rows: vec![u64_row(0), u64_row(1)] },
            MemTable { sql: Q2.to_string(), rows: vec![u64_row(5), Row { cells: vec![Value::Bool(true)] }] },
        ],
        reachable: true,
    };
    let mut d =
        Dispatcher::new(source, split_queries(), Some(u64_schema()), full_transport()).unwrap();
    let mut dest = MemDestination::new();
    let err = d.run(&mut dest).unwrap_err();
    assert_eq!(err.kind_exec(), ErrKind::SchemaMismatch);
    assert!(dest.finalize().is_err());
}

#[test]
fn missing_table_fails_as_query_execution_error() {
    let source = MemSource { schema: u64_schema(), tables: vec![], reachable: true };
    let mut d =
        Dispatcher::new(source, split_queries(), Some(u64_schema()), full_transport()).unwrap();
    let mut dest = MemDestination::new();
    let err = d.run(&mut dest).unwrap_err();
    assert_eq!(err.kind_exec(), ErrKind::QueryExecution);
    assert!(dest.finalize().is_err());
}

#[test]
fn probed_schema_is_used_when_none_is_supplied() {
    let mut d = Dispatcher::new(split_source(), split_queries(), None, full_transport()).unwrap();
    let mut dest = MemDestination::new();
    d.run(&mut dest).unwrap();
    let handle = dest.finalize().unwrap();
    assert_eq!(handle.row_count(), 7);
    assert_eq!(handle.schema.columns.len(), 1);
    assert_eq!(handle.schema.columns[0].name, "id");
}

#[test]
fn run_checked_matches_run() {
    let mut d =
        Dispatcher::new(split_source(), split_queries(), Some(u64_schema()), full_transport())
            .unwrap();
    let mut dest = MemDestination::new();
    d.run_checked(&mut dest).unwrap();
    let handle = dest.finalize().unwrap();
    assert_eq!(handle.row_count(), 7);
}

#[test]
fn a_dispatcher_runs_only_once() {
    let mut d =
        Dispatcher::new(split_source(), split_queries(), Some(u64_schema()), full_transport())
            .unwrap();
    let mut dest = MemDestination::new();
    d.run(&mut dest).unwrap();
    let mut dest2 = MemDestination::new();
    let err = d.run(&mut dest2).unwrap_err();
    assert_eq!(err.kind_exec(), ErrKind::Other);
}

#[test]
fn empty_query_list_commits_an_empty_result() {
    let source = MemSource { schema: u64_schema(), tables: vec![], reachable: true };
    let mut d = Dispatcher::new(source, vec![], Some(u64_schema()), full_transport()).unwrap();
    let mut dest = MemDestination::new();
    d.run(&mut dest).unwrap();
    let handle = dest.finalize().unwrap();
    assert_eq!(handle.row_count(), 0);
}

#[test]
fn partitioner_assigns_consecutive_ranges() {
    let ps = partition_queries(&split_queries(), &vec![4, 3]).unwrap();
    assert_eq!(ps.len(), 2);
    assert_eq!((ps[0].start, ps[0].end), (0, 4));
    assert_eq!((ps[1].start, ps[1].end), (4, 7));
    assert_eq!(ps[0].query.sql, Q1);
    assert_eq!(ps[1].query.sql, Q2);
    assert_eq!(ps[0].query.origin, QueryOrigin::Raw);
}

#[test]
fn partitioner_rejects_mismatched_lengths() {
    let err = partition_queries(&split_queries(), &vec![4]).unwrap_err();
    assert_eq!(err.kind_exec(), ErrKind::Other);
}

#[test]
fn partitioner_rejects_an_overflowing_total() {
    let err = partition_queries(&split_queries(), &vec![usize::MAX, 1]).unwrap_err();
    assert_eq!(err.kind_exec(), ErrKind::Other);
}

#[test]
fn destination_rejects_out_of_range_and_post_abort_writes() {
    let mut dest = MemDestination::new();
    dest.allocate(&u64_schema(), 2).unwrap();
    // write inside the assigned range [0, 1)
    dest.write_row(0, 1, 0, vec![Value::U64(9)]).unwrap();
    // a write outside the cursor's range fails fast
    let err = dest.write_row(0, 1, 1, vec![Value::U64(9)]).unwrap_err();
    assert_eq!(err.kind_exec(), ErrKind::Other);
    // after an abort every write is rejected and nothing is exposed
    dest.abort();
    assert!(dest.write_row(1, 2, 1, vec![Value::U64(9)]).is_err());
}

#[test]
fn allocate_runs_exactly_once() {
    let mut dest = MemDestination::new();
    dest.allocate(&u64_schema(), 1).unwrap();
    let err = dest.allocate(&u64_schema(), 1).unwrap_err();
    assert_eq!(err.kind_exec(), ErrKind::Other);
}

#[test]
fn transport_converts_matching_values_and_rejects_others() {
    let t = full_transport();
    match t.convert(&DataType::U64(false), &Value::U64(7)) {
        Ok(v) => assert_eq!(v, Value::U64(7)),
        Err(_) => panic!("expected a converted cell"),
    }
    let err = t.convert(&DataType::U64(false), &Value::Null).unwrap_err();
    assert!(matches!(err, CxError::SchemaError(_)));
}

#[test]
fn unreachable_source_fails_the_probe_as_a_connection_error() {
    let source = MemSource { schema: u64_schema(), tables: vec![], reachable: false };
    let mut d = Dispatcher::new(source, split_queries(), None, full_transport()).unwrap();
    let mut dest = MemDestination::new();
    let err = d.run(&mut dest).unwrap_err();
    assert_eq!(err.kind_exec(), ErrKind::Connection);
    assert!(matches!(err, CxError::ConnectionError(_)));
    assert!(dest.finalize().is_err());
}

#[test]
fn unreachable_source_fails_the_fetch_as_a_connection_error() {
    let mut source = split_source();
    source.reachable = false;
    let mut d =
        Dispatcher::new(source, split_queries(), Some(u64_schema()), full_transport()).unwrap();
    let mut dest = MemDestination::new();
    let err = d.run(&mut dest).unwrap_err();
    assert_eq!(err.kind_exec(), ErrKind::Connection);
}

#[test]
fn query_constructors_tag_the_origin() {
    let raw = Query::naked("SELECT 1".to_string());
    assert_eq!(raw.sql, "SELECT 1");
    assert_eq!(raw.origin, QueryOrigin::Raw);
    let derived = Query::derived("SELECT 1 LIMIT 10".to_string());
    assert_eq!(derived.sql, "SELECT 1 LIMIT 10");
    assert_eq!(derived.origin, QueryOrigin::Derived);
}
