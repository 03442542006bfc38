use vstd::prelude::*;

use crate::row::Metadata;

verus! {

/// A statement that has been prepared on the connection, as far as its
/// execution result needs it.
pub struct CachedStatement {
    out_metadata: Vec<Metadata>,
    is_plsql: bool,
    is_dml_returning: bool,
}

impl CachedStatement {
    pub fn new(out_metadata: Vec<Metadata>, is_plsql: bool, is_dml_returning: bool) -> (s: Self)
        ensures
            s.out_metadata_spec() == out_metadata@,
            s.is_plsql_spec() == is_plsql,
            s.is_dml_returning_spec() == is_dml_returning,
    {
        CachedStatement { out_metadata, is_plsql, is_dml_returning }
    }

    pub closed spec fn out_metadata_spec(&self) -> Seq<Metadata> {
        self.out_metadata@
    }

    pub closed spec fn is_plsql_spec(&self) -> bool {
        self.is_plsql
    }

    pub closed spec fn is_dml_returning_spec(&self) -> bool {
        self.is_dml_returning
    }

    /// Descriptions of the values the statement hands back: its OUT binds, or
    /// the columns of its RETURNING clause.
    pub fn out_metadata(&self) -> (r: &[Metadata])
        ensures
            r@ == self.out_metadata_spec(),
    {
        self.out_metadata.as_slice()
    }

    /// Whether the statement is a PL/SQL block.
    pub fn is_plsql(&self) -> (r: bool)
        ensures
            r == self.is_plsql_spec(),
    {
        self.is_plsql
    }

    /// Whether the statement is DML with a RETURNING clause.
    pub fn is_dml_returning(&self) -> (r: bool)
        ensures
            r == self.is_dml_returning_spec(),
    {
        self.is_dml_returning
    }
}

} // verus!
