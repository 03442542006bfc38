use std::sync::Arc;

use lib::error::Error;
use lib::row::{Metadata, Row};
use lib::transpose::{RawColumnarData, TransposeData};
use lib::value::DbValue;

fn columns(n: usize) -> Arc<Vec<Metadata>> {
    let mut v = Vec::new();
    for i in 0..n {
        v.push(Metadata::new(format!("COL{}", i + 1), 2));
    }
    Arc::new(v)
}

fn integer(i: i64) -> Option<DbValue> {
    Some(DbValue::Integer(i))
}

fn text(s: &str) -> Option<DbValue> {
    Some(DbValue::Text(s.to_string()))
}

fn array(values: Vec<Option<DbValue>>) -> Option<DbValue> {
    Some(DbValue::Array(values))
}

fn values_of(rows: &[Row]) -> Vec<&Vec<Option<DbValue>>> {
    rows.iter().map(|r| r.values()).collect()
}

#[test]
fn transpose_container_without_columns_gives_no_rows() {
    let rows = RawColumnarData::new(vec![]).transpose(&columns(0)).unwrap();
    assert!(rows.is_empty());
}

#[test]
fn transpose_container_without_arrays_is_its_own_row() {
    let cols = columns(3);
    let rows = RawColumnarData::new(vec![integer(1), None, text("a")]).transpose(&cols).unwrap();
    assert_eq!(rows.len(), 1);
    assert_eq!(rows[0].values(), &vec![integer(1), None, text("a")]);
    assert_eq!(rows[0].columns(), &*cols);
}

#[test]
fn transpose_spreads_arrays_and_repeats_scalars() {
    let cols = columns(4);
    let container = vec![
        array(vec![integer(1), integer(2), None]),
        text("x"),
        None,
        array(vec![text("a"), None, text("c")]),
    ];
    let rows = RawColumnarData::new(container).transpose(&cols).unwrap();
    assert_eq!(rows.len(), 3);
    assert_eq!(
        values_of(&rows),
        vec![
            &vec![integer(1), text("x"), None, text("a")],
            &vec![integer(2), text("x"), None, None],
            &vec![None, text("x"), None, text("c")],
        ]
    );
    for row in &rows {
        assert_eq!(row.columns().len(), 4);
        assert_eq!(row.columns()[3].name(), "COL4");
    }
}

#[test]
fn transpose_rejects_arrays_of_different_lengths() {
    let container = vec![array(vec![integer(1), integer(2)]), integer(9), array(vec![integer(3)])];
    let res = RawColumnarData::new(container).transpose(&columns(3));
    assert_eq!(res.unwrap_err(), Error::UnexpectedResult);
}

#[test]
fn transpose_empty_arrays_give_no_rows() {
    let container = vec![array(vec![]), text("scalar"), array(vec![])];
    let rows = RawColumnarData::new(container).transpose(&columns(3)).unwrap();
    assert!(rows.is_empty());
}

#[test]
fn transpose_keeps_nested_arrays_as_values() {
    let inner = array(vec![integer(7), integer(8)]);
    let container = vec![array(vec![inner, None])];
    let rows = RawColumnarData::new(container).transpose(&columns(1)).unwrap();
    assert_eq!(rows.len(), 2);
    assert_eq!(rows[0].values(), &vec![array(vec![integer(7), integer(8)])]);
    assert_eq!(rows[1].values(), &vec![None]);
}

#[test]
fn transpose_repeats_raw_and_boolean_scalars() {
    let container = vec![
        Some(DbValue::Raw(vec![1, 2, 3])),
        Some(DbValue::Boolean(true)),
        array(vec![integer(1), integer(2)]),
    ];
    let rows = RawColumnarData::new(container).transpose(&columns(3)).unwrap();
    assert_eq!(rows.len(), 2);
    for (i, row) in rows.iter().enumerate() {
        assert_eq!(
            row.values(),
            &vec![Some(DbValue::Raw(vec![1, 2, 3])), Some(DbValue::Boolean(true)), integer(i as i64 + 1)]
        );
    }
}

#[test]
fn transpose_batch_keeps_empty_groups_in_place() {
    let cols = columns(2);
    let batch = vec![
        RawColumnarData::new(vec![array(vec![integer(1)]), text("a")]),
        RawColumnarData::new(vec![array(vec![]), text("b")]),
        RawColumnarData::new(vec![array(vec![integer(2), integer(3)]), text("c")]),
    ];
    let groups = batch.transpose(&cols).unwrap();
    assert_eq!(groups.len(), 3);
    assert_eq!(values_of(&groups[0]), vec![&vec![integer(1), text("a")]]);
    assert!(groups[1].is_empty());
    assert_eq!(
        values_of(&groups[2]),
        vec![&vec![integer(2), text("c")], &vec![integer(3), text("c")]]
    );
}

#[test]
fn transpose_batch_fails_on_a_malformed_container() {
    let batch = vec![
        RawColumnarData::new(vec![array(vec![integer(1)])]),
        RawColumnarData::new(vec![array(vec![integer(1)]), array(vec![])]),
    ];
    assert_eq!(batch.transpose(&columns(2)).unwrap_err(), Error::UnexpectedResult);
}

#[test]
fn transpose_batch_of_nothing_is_empty() {
    let batch: Vec<RawColumnarData> = Vec::new();
    assert!(batch.transpose(&columns(1)).unwrap().is_empty());
}

#[test]
fn duplicate_copies_nested_values() {
    let v = DbValue::Array(vec![integer(1), None, array(vec![text("z")]), Some(DbValue::Raw(vec![9]))]);
    assert_eq!(v.duplicate(), v);
}
