use std::sync::Arc;
use vstd::prelude::*;

use crate::value::{values_model, DbValue, ValueModel};

verus! {

/// One row as it travels over the wire: one nullable value per column.
pub type DbRow = Vec<Option<DbValue>>;

/// The raw data of a row before it is given its column descriptions.
pub type RowData = Vec<Option<DbValue>>;

/// Description of one column of a result or of one OUT bind.
#[derive(Debug, PartialEq)]
pub struct Metadata {
    name: String,
    type_num: u8,
}

impl Metadata {
    pub fn new(name: String, type_num: u8) -> (m: Metadata)
        ensures
            m.name_spec() == name@,
            m.type_num_spec() == type_num,
    {
        Metadata { name, type_num }
    }

    pub closed spec fn name_spec(&self) -> Seq<char> {
        self.name@
    }

    pub closed spec fn type_num_spec(&self) -> u8 {
        self.type_num
    }

    /// The column's name.
    pub fn name(&self) -> (r: &str)
        ensures
            r@ == self.name_spec(),
    {
        self.name.as_str()
    }

    /// The column's Oracle type number.
    pub fn type_num(&self) -> (r: u8)
        ensures
            r == self.type_num_spec(),
    {
        self.type_num
    }

    /// An identical, independently owned description.
    pub fn duplicate(&self) -> (m: Metadata)
        ensures
            m == *self,
    {
        Metadata { name: self.name.clone(), type_num: self.type_num }
    }
}

/// Copies a list of column descriptions.
pub(crate) fn copy_columns(columns: &[Metadata]) -> (r: Vec<Metadata>)
    ensures
        r@ == columns@,
{
    let mut out: Vec<Metadata> = Vec::new();
    let mut i: usize = 0;
    while i < columns.len()
        invariant
            i <= columns@.len(),
            out@ == columns@.take(i as int),
        decreases columns@.len() - i,
    {
        out.push(columns[i].duplicate());
        i += 1;
        assert(out@ =~= columns@.take(i as int));
    }
    assert(columns@.take(columns@.len() as int) =~= columns@);
    out
}

/// Hands out another reference to data shared by all the rows of one result.
///
/// Calls `Arc::clone`, which returns a pointer to the same allocation; the
/// contract says only that the shared value is the same.
#[verifier::external_body]
fn share<T>(a: &Arc<T>) -> (r: Arc<T>)
    ensures
        r == *a,
{
    Arc::clone(a)
}

/// A row of values together with the descriptions of its columns.
#[derive(Debug, PartialEq)]
pub struct Row {
    column_info: Arc<Vec<Metadata>>,
    values: Vec<Option<DbValue>>,
}

impl Row {
    pub fn new(column_info: &Arc<Vec<Metadata>>, values: Vec<Option<DbValue>>) -> (r: Row)
        ensures
            r.columns_spec() == column_info@,
            r.values_spec() == values_model(values@),
    {
        Row { column_info: share(column_info), values }
    }

    /// The descriptions of the row's columns.
    pub closed spec fn columns_spec(&self) -> Seq<Metadata> {
        self.column_info@
    }

    /// The row's values.
    pub closed spec fn values_spec(&self) -> Seq<Option<ValueModel>> {
        values_model(self.values@)
    }

    pub fn columns(&self) -> (r: &Vec<Metadata>)
        ensures
            r@ == self.columns_spec(),
    {
        &self.column_info
    }

    pub fn values(&self) -> (r: &Vec<Option<DbValue>>)
        ensures
            values_model(r@) == self.values_spec(),
    {
        &self.values
    }

    pub fn into_values(self) -> (r: Vec<Option<DbValue>>)
        ensures
            values_model(r@) == self.values_spec(),
    {
        self.values
    }
}

} // verus!
