use lib::error::{Error, OutputKind};
use lib::exec_result::{ExecBatchResult, ExecResult};
use lib::response::Response;
use lib::row::{DbRow, Metadata};
use lib::statement::CachedStatement;
use lib::value::DbValue;

fn integer(i: i64) -> Option<DbValue> {
    Some(DbValue::Integer(i))
}

fn text(s: &str) -> Option<DbValue> {
    Some(DbValue::Text(s.to_string()))
}

fn array(values: Vec<Option<DbValue>>) -> Option<DbValue> {
    Some(DbValue::Array(values))
}

fn meta(names: &[&str]) -> Vec<Metadata> {
    names.iter().map(|n| Metadata::new(n.to_string(), 1)).collect()
}

fn plsql(names: &[&str]) -> CachedStatement {
    CachedStatement::new(meta(names), true, false)
}

fn dml_returning(names: &[&str]) -> CachedStatement {
    CachedStatement::new(meta(names), false, true)
}

fn response(rows: Option<Vec<DbRow>>, rowcount: u64) -> Response {
    Response::new(Vec::new(), rows, rowcount)
}

#[test]
fn statement_without_out_metadata_has_no_output() {
    let stmt = CachedStatement::new(Vec::new(), false, true);
    let mut resp = response(Some(vec![vec![integer(1)]]), 4);
    let result = ExecResult::new(&stmt, &mut resp);
    assert!(resp.take_rows().is_none());
    assert_eq!(result.rows_affected(), 4);
    assert_eq!(result.into_returned_data().unwrap(), None);
}

#[test]
fn absent_container_gives_none_and_no_data_found() {
    let stmt = dml_returning(&["ID"]);
    let mut r1 = response(None, 0);
    assert_eq!(ExecResult::new(&stmt, &mut r1).into_returned_data().unwrap(), None);
    let mut r2 = response(None, 0);
    assert_eq!(ExecResult::new(&stmt, &mut r2).into_out_bind_data().unwrap(), None);
    let mut r3 = response(None, 0);
    assert_eq!(ExecResult::new(&stmt, &mut r3).into_returned_row().unwrap_err(), Error::NoDataFound);
}

#[test]
fn plsql_out_binds_come_back_as_one_row() {
    let stmt = plsql(&["A", "B"]);
    let mut resp = response(Some(vec![vec![text("hello"), array(vec![integer(1), integer(2)])]]), 1);
    let result = ExecResult::new(&stmt, &mut resp);
    assert_eq!(result.rows_affected(), 1);
    let row = result.into_out_bind_data().unwrap().unwrap();
    assert_eq!(row.values(), &vec![text("hello"), array(vec![integer(1), integer(2)])]);
    assert_eq!(row.columns().len(), 2);
    assert_eq!(row.columns()[0].name(), "A");
}

#[test]
fn plsql_output_is_not_dml_returning_data() {
    let stmt = plsql(&["A"]);
    let mut resp = response(Some(vec![vec![integer(1)]]), 0);
    let err = ExecResult::new(&stmt, &mut resp).into_returned_data().unwrap_err();
    assert_eq!(
        err,
        Error::ExecutionOutputKindMismatch { expected: OutputKind::DmlReturning, found: OutputKind::PlSql }
    );
}

#[test]
fn dml_returning_output_is_not_out_bind_data() {
    let stmt = dml_returning(&["A"]);
    let mut resp = response(Some(vec![vec![array(vec![integer(1)])]]), 0);
    let err = ExecResult::new(&stmt, &mut resp).into_out_bind_data().unwrap_err();
    assert_eq!(
        err,
        Error::ExecutionOutputKindMismatch { expected: OutputKind::PlSql, found: OutputKind::DmlReturning }
    );
}

#[test]
fn single_execution_with_two_containers_is_unexpected() {
    let stmt = dml_returning(&["A"]);
    let mut resp = response(Some(vec![vec![array(vec![])], vec![array(vec![])]]), 0);
    let err = ExecResult::new(&stmt, &mut resp).into_returned_data().unwrap_err();
    assert_eq!(err, Error::UnexpectedResult);
}

#[test]
fn returned_data_is_transposed() {
    let stmt = dml_returning(&["ID", "NAME"]);
    let container = vec![array(vec![integer(1), integer(2)]), array(vec![text("a"), text("b")])];
    let mut resp = response(Some(vec![container]), 2);
    let result = ExecResult::new(&stmt, &mut resp);
    assert_eq!(result.rows_affected(), 2);
    let rows = result.into_returned_data().unwrap().unwrap();
    assert_eq!(rows.len(), 2);
    assert_eq!(rows[0].values(), &vec![integer(1), text("a")]);
    assert_eq!(rows[1].values(), &vec![integer(2), text("b")]);
}

#[test]
fn container_with_zero_rows_is_some_empty() {
    let stmt = dml_returning(&["ID"]);
    let mut resp = response(Some(vec![vec![array(vec![])]]), 0);
    let rows = ExecResult::new(&stmt, &mut resp).into_returned_data().unwrap();
    assert_eq!(rows, Some(vec![]));
}

#[test]
fn returned_row_requires_exactly_one_row() {
    let stmt = dml_returning(&["ID"]);

    let mut one = response(Some(vec![vec![array(vec![integer(5)])]]), 1);
    let row = ExecResult::new(&stmt, &mut one).into_returned_row().unwrap();
    assert_eq!(row.values(), &vec![integer(5)]);

    let mut zero = response(Some(vec![vec![array(vec![])]]), 0);
    assert_eq!(ExecResult::new(&stmt, &mut zero).into_returned_row().unwrap_err(), Error::NoDataFound);

    let mut two = response(Some(vec![vec![array(vec![integer(1), integer(2)])]]), 2);
    assert_eq!(
        ExecResult::new(&stmt, &mut two).into_returned_row().unwrap_err(),
        Error::OutOfRange { count: 2 }
    );
}

#[test]
fn returned_row_passes_malformed_data_on() {
    let stmt = dml_returning(&["A", "B"]);
    let mut resp = response(Some(vec![vec![array(vec![integer(1)]), array(vec![])]]), 0);
    assert_eq!(ExecResult::new(&stmt, &mut resp).into_returned_row().unwrap_err(), Error::UnexpectedResult);
}

#[test]
fn batch_out_binds_keep_execution_order() {
    let stmt = plsql(&["X"]);
    let rows = vec![vec![integer(10)], vec![integer(20)], vec![None]];
    let mut resp = response(Some(rows), 3);
    let result = ExecBatchResult::new(&stmt, 3, &mut resp);
    assert_eq!(result.rows_affected(), 3);
    let out = result.into_out_bind_data().unwrap().unwrap();
    assert_eq!(out.len(), 3);
    assert_eq!(out[0].values(), &vec![integer(10)]);
    assert_eq!(out[1].values(), &vec![integer(20)]);
    assert_eq!(out[2].values(), &vec![None]);
}

#[test]
fn batch_with_missing_container_is_unexpected() {
    let stmt = dml_returning(&["X"]);
    let mut resp = response(Some(vec![vec![array(vec![integer(1)])]]), 1);
    let err = ExecBatchResult::new(&stmt, 2, &mut resp).into_returned_data().unwrap_err();
    assert_eq!(err, Error::UnexpectedResult);
}

#[test]
fn batch_returned_data_keeps_empty_groups() {
    let stmt = dml_returning(&["ID"]);
    let rows = vec![
        vec![array(vec![integer(1), integer(2)])],
        vec![array(vec![])],
        vec![array(vec![integer(3)])],
    ];
    let mut resp = response(Some(rows), 3);
    let groups = ExecBatchResult::new(&stmt, 3, &mut resp).into_returned_data().unwrap().unwrap();
    assert_eq!(groups.len(), 3);
    assert_eq!(groups[0].len(), 2);
    assert_eq!(groups[0][1].values(), &vec![integer(2)]);
    assert!(groups[1].is_empty());
    assert_eq!(groups[2][0].values(), &vec![integer(3)]);
}

#[test]
fn batch_absent_output_is_none() {
    let stmt = plsql(&["X"]);
    let mut resp = response(None, 0);
    assert_eq!(ExecBatchResult::new(&stmt, 2, &mut resp).into_out_bind_data().unwrap(), None);
}

#[test]
fn batch_of_one_agrees_with_single_execution() {
    let stmt = dml_returning(&["ID", "TAG"]);
    let container = || vec![vec![array(vec![integer(1), integer(2)]), text("t")]];
    let mut r1 = response(Some(container()), 2);
    let single = ExecResult::new(&stmt, &mut r1).into_returned_data().unwrap().unwrap();
    let mut r2 = response(Some(container()), 2);
    let batch = ExecBatchResult::new(&stmt, 1, &mut r2).into_returned_data().unwrap().unwrap();
    assert_eq!(batch.len(), 1);
    assert_eq!(batch[0], single);
}

#[test]
fn neither_kind_of_statement_keeps_no_output() {
    let stmt = CachedStatement::new(meta(&["A"]), false, false);
    let mut resp = response(Some(vec![vec![integer(1)]]), 0);
    let result = ExecResult::new(&stmt, &mut resp);
    assert!(resp.take_rows().is_none());
    assert_eq!(result.into_out_bind_data().unwrap(), None);
}
