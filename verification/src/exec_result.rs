use std::sync::Arc;
use vstd::prelude::*;

use crate::error::{Error, OutputKind};
use crate::response::{rows_model, Response};
use crate::row::{copy_columns, DbRow, Metadata, Row};
use crate::statement::CachedStatement;
use crate::transpose::{
    batch_data, batch_result_matches, groups_match, law_transpose_batch_elementwise,
    law_uniform_container_transposes, reversed, rows_match, spec_transpose, spec_transpose_batch,
    RawColumnarData, TransposeData,
};
use crate::value::{values_model, ValueModel};

verus! {

/// The rows of one output container.
pub type RowsModel = Seq<Seq<Option<ValueModel>>>;

/// What an execution left behind for extraction.
pub enum OutputModel {
    /// No output container was supplied.
    Absent,
    /// The rows of a PL/SQL block's OUT binds.
    PlSql(RowsModel),
    /// The containers of a DML RETURNING clause.
    DmlReturning(RowsModel),
}

/// The output that an execution keeps: the response's rows, of the kind the
/// statement produces, when the statement hands values back.
pub open spec fn spec_new_output(
    out_metadata_empty: bool,
    is_plsql: bool,
    is_dml_returning: bool,
    rows: Option<RowsModel>,
) -> OutputModel {
    if out_metadata_empty {
        OutputModel::Absent
    } else {
        match rows {
            Some(rows) => if is_plsql {
                OutputModel::PlSql(rows)
            } else if is_dml_returning {
                OutputModel::DmlReturning(rows)
            } else {
                OutputModel::Absent
            },
            None => OutputModel::Absent,
        }
    }
}

/// Extraction of `count` wire containers of the requested kind (PL/SQL when
/// `plsql`, else DML RETURNING): nothing when there is no output, an error
/// when the output is of the other kind or holds another number of
/// containers, else the containers.
pub open spec fn spec_into_rows(out: OutputModel, plsql: bool, count: nat) -> Result<
    Option<RowsModel>,
    Error,
> {
    match out {
        OutputModel::Absent => Ok(None),
        OutputModel::PlSql(rows) => if !plsql {
            Err(Error::ExecutionOutputKindMismatch {
                expected: OutputKind::DmlReturning,
                found: OutputKind::PlSql,
            })
        } else if rows.len() != count {
            Err(Error::UnexpectedResult)
        } else {
            Ok(Some(rows))
        },
        OutputModel::DmlReturning(rows) => if plsql {
            Err(Error::ExecutionOutputKindMismatch {
                expected: OutputKind::PlSql,
                found: OutputKind::DmlReturning,
            })
        } else if rows.len() != count {
            Err(Error::UnexpectedResult)
        } else {
            Ok(Some(rows))
        },
    }
}

/// The rows returned by a single DML RETURNING execution: its one container, transposed.
pub open spec fn spec_returned_data(out: OutputModel) -> Result<Option<RowsModel>, Error> {
    match spec_into_rows(out, false, 1) {
        Err(e) => Err(e),
        Ok(None) => Ok(None),
        Ok(Some(containers)) => match spec_transpose(containers[0]) {
            Err(e) => Err(e),
            Ok(rows) => Ok(Some(rows)),
        },
    }
}

/// The one row returned by a single DML RETURNING execution.
pub open spec fn spec_returned_row(out: OutputModel) -> Result<Seq<Option<ValueModel>>, Error> {
    match spec_returned_data(out) {
        Err(e) => Err(e),
        Ok(None) => Err(Error::NoDataFound),
        Ok(Some(rows)) => if rows.len() == 0 {
            Err(Error::NoDataFound)
        } else if rows.len() == 1 {
            Ok(rows[0])
        } else {
            Err(Error::OutOfRange { count: rows.len() as usize })
        },
    }
}

/// The groups of rows returned by a batch of `num_execs` DML RETURNING
/// executions: each container transposed, in execution order.
pub open spec fn spec_batch_returned_data(out: OutputModel, num_execs: nat) -> Result<
    Option<Seq<RowsModel>>,
    Error,
> {
    match spec_into_rows(out, false, num_execs) {
        Err(e) => Err(e),
        Ok(None) => Ok(None),
        Ok(Some(containers)) => match spec_transpose_batch(containers) {
            Err(e) => Err(e),
            Ok(groups) => Ok(Some(groups)),
        },
    }
}

/// Whether `res` is the outcome `spec`, rows being described by `columns`.
pub open spec fn opt_rows_matches(
    res: Result<Option<Vec<Row>>, Error>,
    spec: Result<Option<RowsModel>, Error>,
    columns: Seq<Metadata>,
) -> bool {
    match spec {
        Err(e) => res == Err::<Option<Vec<Row>>, Error>(e),
        Ok(None) => res == Ok::<Option<Vec<Row>>, Error>(None),
        Ok(Some(rows)) => res matches Ok(Some(v)) && rows_match(v@, rows, columns),
    }
}

/// The output kept until extraction, so that its container count can be checked.
enum ExecutionOutput {
    Absent,
    PlSql(Vec<DbRow>),
    DmlReturning(Vec<DbRow>),
}

impl ExecutionOutput {
    closed spec fn model(&self) -> OutputModel {
        match self {
            ExecutionOutput::Absent => OutputModel::Absent,
            ExecutionOutput::PlSql(rows) => OutputModel::PlSql(rows_model(rows@)),
            ExecutionOutput::DmlReturning(rows) => OutputModel::DmlReturning(rows_model(rows@)),
        }
    }

    fn new(statement: &CachedStatement, resp: &mut Response) -> (out: Self)
        ensures
            out.model() == spec_new_output(
                statement.out_metadata_spec().len() == 0,
                statement.is_plsql_spec(),
                statement.is_dml_returning_spec(),
                old(resp).rows_spec(),
            ),
            final(resp).rows_spec() is None,
            final(resp).bytes_spec() == old(resp).bytes_spec(),
            final(resp).pos_spec() == old(resp).pos_spec(),
            final(resp).rowcount_spec() == old(resp).rowcount_spec(),
    {
        let rows = resp.take_rows();
        if statement.out_metadata().len() == 0 {
            return Self::Absent;
        }
        match rows {
            Some(rows) => if statement.is_plsql() {
                Self::PlSql(rows)
            } else if statement.is_dml_returning() {
                Self::DmlReturning(rows)
            } else {
                Self::Absent
            },
            None => Self::Absent,
        }
    }

    fn into_rows(self, plsql: bool, count: usize) -> (r: Result<Option<Vec<DbRow>>, Error>)
        ensures
            match spec_into_rows(self.model(), plsql, count as nat) {
                Err(e) => r == Err::<Option<Vec<DbRow>>, Error>(e),
                Ok(None) => r == Ok::<Option<Vec<DbRow>>, Error>(None),
                Ok(Some(rows)) => r matches Ok(Some(v)) && rows_model(v@) == rows,
            },
    {
        let rows = match (self, plsql) {
            (Self::Absent, _) => {
                return Ok(None);
            },
            (Self::PlSql(rows), true) => rows,
            (Self::DmlReturning(rows), false) => rows,
            (Self::PlSql(_), false) => {
                return Err(Error::output_kind_mismatch(OutputKind::DmlReturning, OutputKind::PlSql));
            },
            (Self::DmlReturning(_), true) => {
                return Err(Error::output_kind_mismatch(OutputKind::PlSql, OutputKind::DmlReturning));
            },
        };
        if rows.len() != count {
            return Err(Error::unexpected_result());
        }
        Ok(Some(rows))
    }
}

/// Result of a single execution. Read counts before consuming output.
/// Extraction consumes the result even on error. Absence is None; SQL NULL
/// is represented by an optional value within an existing row.
pub struct ExecResult {
    column_info: Arc<Vec<Metadata>>,
    output: ExecutionOutput,
    rows_affected: u64,
}

impl ExecResult {
    pub closed spec fn columns_spec(&self) -> Seq<Metadata> {
        self.column_info@
    }

    pub closed spec fn output_spec(&self) -> OutputModel {
        self.output.model()
    }

    pub closed spec fn rows_affected_spec(&self) -> u64 {
        self.rows_affected
    }

    pub fn new(statement: &CachedStatement, resp: &mut Response) -> (r: Self)
        ensures
            r.columns_spec() == statement.out_metadata_spec(),
            r.output_spec() == spec_new_output(
                statement.out_metadata_spec().len() == 0,
                statement.is_plsql_spec(),
                statement.is_dml_returning_spec(),
                old(resp).rows_spec(),
            ),
            r.rows_affected_spec() == old(resp).rowcount_spec(),
            final(resp).rows_spec() is None,
            final(resp).bytes_spec() == old(resp).bytes_spec(),
            final(resp).pos_spec() == old(resp).pos_spec(),
            final(resp).rowcount_spec() == old(resp).rowcount_spec(),
    {
        let column_info = Arc::new(copy_columns(statement.out_metadata()));
        let output = ExecutionOutput::new(statement, resp);
        Self { column_info, output, rows_affected: resp.get_rowcount() }
    }

    /// Returns the affected-row count. Call before consuming the result.
    pub fn rows_affected(&self) -> (r: u64)
        ensures
            r == self.rows_affected_spec(),
    {
        self.rows_affected
    }

    /// Consumes PL/SQL OUT data, retaining array-valued columns.
    /// Returns None if no container was supplied. Existing DML RETURNING
    /// output causes an ExecutionOutputKindMismatch error.
    pub fn into_out_bind_data(self) -> (r: Result<Option<Row>, Error>)
        ensures
            match spec_into_rows(self.output_spec(), true, 1) {
                Err(e) => r == Err::<Option<Row>, Error>(e),
                Ok(None) => r == Ok::<Option<Row>, Error>(None),
                Ok(Some(rows)) => r matches Ok(Some(row)) && row.values_spec() == rows[0]
                    && row.columns_spec() == self.columns_spec(),
            },
    {
        match self.output.into_rows(true, 1) {
            Err(e) => Err(e),
            Ok(None) => Ok(None),
            Ok(Some(mut rows)) => {
                let ghost model = rows_model(rows@);
                match rows.pop() {
                    Some(row) => {
                        assert(values_model(row@) == model[0]);
                        Ok(Some(Row::new(&self.column_info, row)))
                    },
                    None => Ok(None),
                }
            },
        }
    }

    /// Consumes and transposes DML RETURNING data.
    /// None means no container was supplied; Some(vec![]) means a supplied
    /// container contained zero rows. PL/SQL output causes an
    /// ExecutionOutputKindMismatch error; malformed containers return an error.
    pub fn into_returned_data(self) -> (r: Result<Option<Vec<Row>>, Error>)
        ensures
            opt_rows_matches(r, spec_returned_data(self.output_spec()), self.columns_spec()),
    {
        match self.output.into_rows(false, 1) {
            Err(e) => Err(e),
            Ok(None) => Ok(None),
            Ok(Some(mut rows)) => {
                let ghost model = rows_model(rows@);
                match rows.pop() {
                    Some(row) => {
                        assert(values_model(row@) == model[0]);
                        match RawColumnarData::new(row).transpose(&self.column_info) {
                            Ok(v) => Ok(Some(v)),
                            Err(e) => Err(e),
                        }
                    },
                    None => Ok(None),
                }
            },
        }
    }

    /// Consumes exactly one DML RETURNING row. Absence or zero rows produces
    /// NoDataFound; multiple rows produce OutOfRange.
    pub fn into_returned_row(self) -> (r: Result<Row, Error>)
        ensures
            match spec_returned_row(self.output_spec()) {
                Err(e) => r == Err::<Row, Error>(e),
                Ok(values) => r matches Ok(row) && row.values_spec() == values
                    && row.columns_spec() == self.columns_spec(),
            },
    {
        let ghost out = self.output_spec();
        let ghost columns = self.columns_spec();
        let rows = match self.into_returned_data() {
            Err(e) => {
                return Err(e);
            },
            Ok(None) => {
                return Err(Error::no_data_found());
            },
            Ok(Some(rows)) => rows,
        };
        let mut rows = rows;
        let n = rows.len();
        if n == 0 {
            Err(Error::no_data_found())
        } else if n == 1 {
            match rows.pop() {
                Some(row) => Ok(row),
                None => Err(Error::no_data_found()),
            }
        } else {
            Err(Error::out_of_range(n))
        }
    }
}

/// Result of batch execution. Extraction consumes the result.
/// Present output must contain one container per execution. Empty DML groups
/// retain their position; missing containers produce an error.
pub struct ExecBatchResult {
    column_info: Arc<Vec<Metadata>>,
    output: ExecutionOutput,
    num_execs: usize,
    rows_affected: u64,
}

impl ExecBatchResult {
    pub closed spec fn columns_spec(&self) -> Seq<Metadata> {
        self.column_info@
    }

    pub closed spec fn output_spec(&self) -> OutputModel {
        self.output.model()
    }

    pub closed spec fn num_execs_spec(&self) -> usize {
        self.num_execs
    }

    pub closed spec fn rows_affected_spec(&self) -> u64 {
        self.rows_affected
    }

    pub fn new(statement: &CachedStatement, num_execs: usize, resp: &mut Response) -> (r: Self)
        ensures
            r.columns_spec() == statement.out_metadata_spec(),
            r.output_spec() == spec_new_output(
                statement.out_metadata_spec().len() == 0,
                statement.is_plsql_spec(),
                statement.is_dml_returning_spec(),
                old(resp).rows_spec(),
            ),
            r.num_execs_spec() == num_execs,
            r.rows_affected_spec() == old(resp).rowcount_spec(),
            final(resp).rows_spec() is None,
            final(resp).bytes_spec() == old(resp).bytes_spec(),
            final(resp).pos_spec() == old(resp).pos_spec(),
            final(resp).rowcount_spec() == old(resp).rowcount_spec(),
    {
        let column_info = Arc::new(copy_columns(statement.out_metadata()));
        let output = ExecutionOutput::new(statement, resp);
        Self { column_info, output, num_execs, rows_affected: resp.get_rowcount() }
    }

    /// Returns the total affected-row count before extraction.
    pub fn rows_affected(&self) -> (r: u64)
        ensures
            r == self.rows_affected_spec(),
    {
        self.rows_affected
    }

    /// Consumes PL/SQL OUT rows in execution order without transposition.
    /// Returns None for absent output, or an error for a wrong output kind or
    /// an unexpected container count.
    pub fn into_out_bind_data(self) -> (r: Result<Option<Vec<Row>>, Error>)
        ensures
            opt_rows_matches(
                r,
                spec_into_rows(self.output_spec(), true, self.num_execs_spec() as nat),
                self.columns_spec(),
            ),
    {
        let rows = match self.output.into_rows(true, self.num_execs) {
            Err(e) => {
                return Err(e);
            },
            Ok(None) => {
                return Ok(None);
            },
            Ok(Some(rows)) => rows,
        };
        let ghost model = rows_model(rows@);
        let mut pending = reversed(rows);
        let mut out: Vec<Row> = Vec::new();
        while pending.len() > 0
            invariant
                pending@.len() + out@.len() == model.len(),
                forall|i: int|
                    0 <= i < pending@.len() ==> values_model((#[trigger] pending@[i])@)
                        == model[model.len() - 1 - i],
                rows_match(out@, model.take(out@.len() as int), self.column_info@),
            decreases pending@.len(),
        {
            let ghost done = out@.len() as int;
            if let Some(row) = pending.pop() {
                out.push(Row::new(&self.column_info, row));
                assert(model.take(done + 1) =~= model.take(done).push(model[done]));
            }
        }
        assert(model.take(model.len() as int) =~= model);
        Ok(Some(out))
    }

    /// Consumes DML RETURNING rows grouped in execution order.
    /// Empty groups are retained. Returns None for absent output, or an error
    /// for a wrong output kind, malformed data, or missing execution containers.
    pub fn into_returned_data(self) -> (r: Result<Option<Vec<Vec<Row>>>, Error>)
        ensures
            match spec_batch_returned_data(self.output_spec(), self.num_execs_spec() as nat) {
                Err(e) => r == Err::<Option<Vec<Vec<Row>>>, Error>(e),
                Ok(None) => r == Ok::<Option<Vec<Vec<Row>>>, Error>(None),
                Ok(Some(groups)) => r matches Ok(Some(v)) && groups_match(
                    v@,
                    groups,
                    self.columns_spec(),
                ),
            },
    {
        let rows = match self.output.into_rows(false, self.num_execs) {
            Err(e) => {
                return Err(e);
            },
            Ok(None) => {
                return Ok(None);
            },
            Ok(Some(rows)) => rows,
        };
        let ghost model = rows_model(rows@);
        let mut pending = reversed(rows);
        let mut raw: Vec<RawColumnarData> = Vec::new();
        while pending.len() > 0
            invariant
                pending@.len() + raw@.len() == model.len(),
                forall|i: int|
                    0 <= i < pending@.len() ==> values_model((#[trigger] pending@[i])@)
                        == model[model.len() - 1 - i],
                batch_data(raw@) == model.take(raw@.len() as int),
            decreases pending@.len(),
        {
            let ghost done = raw@.len() as int;
            if let Some(row) = pending.pop() {
                raw.push(RawColumnarData::new(row));
                assert(batch_data(raw@) =~= model.take(done + 1));
            }
        }
        assert(model.take(model.len() as int) =~= model);
        match raw.transpose(&self.column_info) {
            Ok(groups) => Ok(Some(groups)),
            Err(e) => Err(e),
        }
    }
}

/// Without an output container every extraction gives nothing, and asking
/// for the one returned row gives `NoDataFound`.
pub proof fn law_absent_output_extracts_nothing(plsql: bool, count: nat)
    ensures
        spec_into_rows(OutputModel::Absent, plsql, count) == Ok::<Option<RowsModel>, Error>(None),
        spec_returned_data(OutputModel::Absent) == Ok::<Option<RowsModel>, Error>(None),
        spec_batch_returned_data(OutputModel::Absent, count) == Ok::<Option<Seq<RowsModel>>, Error>(
            None,
        ),
        spec_returned_row(OutputModel::Absent) == Err::<Seq<Option<ValueModel>>, Error>(
            Error::NoDataFound,
        ),
{
}

/// An execution keeps output only for a statement that hands values back
/// and when the response carried a container.
pub proof fn law_output_needs_out_metadata_and_rows(
    out_metadata_empty: bool,
    is_plsql: bool,
    is_dml_returning: bool,
    rows: Option<RowsModel>,
)
    ensures
        (out_metadata_empty || rows is None) ==> spec_new_output(
            out_metadata_empty,
            is_plsql,
            is_dml_returning,
            rows,
        ) == OutputModel::Absent,
{
}

/// The two kinds of output exclude each other: whatever the counts, OUT bind
/// data and DML RETURNING data are never both available from one output.
pub proof fn law_output_kinds_exclusive(out: OutputModel, n: nat, m: nat)
    ensures
        !(spec_into_rows(out, true, n) matches Ok(Some(_)) && spec_into_rows(
            out,
            false,
            m,
        ) matches Ok(Some(_))),
{
}

/// The one returned row is the returned data when that is exactly one row;
/// no data or zero rows give `NoDataFound`, more rows give `OutOfRange`, and
/// errors in the data are passed on.
pub proof fn law_returned_row_agrees_with_returned_data(
    out: OutputModel,
    row: Seq<Option<ValueModel>>,
    count: usize,
)
    ensures
        spec_returned_row(out) == Ok::<Seq<Option<ValueModel>>, Error>(row) <==> spec_returned_data(
            out,
        ) == Ok::<Option<RowsModel>, Error>(Some(seq![row])),
        spec_returned_row(out) == Err::<Seq<Option<ValueModel>>, Error>(Error::NoDataFound) <==> (
        spec_returned_data(out) matches Ok(data) && (data is None || data->0.len() == 0)),
        spec_returned_row(out) == Err::<Seq<Option<ValueModel>>, Error>(Error::OutOfRange { count })
            <==> (spec_returned_data(out) matches Ok(Some(rows)) && rows.len() > 1 && count
            == rows.len() as usize),
        spec_returned_data(out) matches Err(e) ==> spec_returned_row(out) == Err::<
            Seq<Option<ValueModel>>,
            Error,
        >(e),
{
    if let Ok(Some(rows)) = spec_returned_data(out) {
        if rows.len() == 1 {
            assert(rows =~= seq![rows[0]]);
        }
    }
}

/// A batch of one execution gives what a single execution gives: the same
/// error, nothing when there is no output, and otherwise one group holding
/// the single execution's rows.
pub proof fn law_batch_of_one_agrees_with_single(out: OutputModel)
    ensures
        spec_batch_returned_data(out, 1) == (match spec_returned_data(out) {
            Err(e) => Err(e),
            Ok(None) => Ok(None),
            Ok(Some(rows)) => Ok(Some(seq![rows])),
        }),
{
    if let Ok(Some(containers)) = spec_into_rows(out, false, 1) {
        assert(containers.drop_last() =~= Seq::<Seq<Option<ValueModel>>>::empty());
        assert(containers.last() == containers[0]);
        reveal_with_fuel(spec_transpose_batch, 2);
        if let Ok(rows) = spec_transpose(containers[0]) {
            assert(Seq::<RowsModel>::empty().push(rows) =~= seq![rows]);
        }
    }
}

/// A statement that hands values back keeps the reply's rows as they are,
/// whatever their values (nulls included): as OUT bind data for a PL/SQL
/// block, as DML RETURNING data for DML with a RETURNING clause, and not at
/// all for any other statement.
pub proof fn law_output_keeps_reply_rows(rows: RowsModel, is_dml_returning: bool)
    ensures
        spec_new_output(false, true, is_dml_returning, Some(rows)) == OutputModel::PlSql(rows),
        spec_new_output(false, false, true, Some(rows)) == OutputModel::DmlReturning(rows),
        spec_new_output(false, false, false, Some(rows)) == OutputModel::Absent,
{
}

/// Output of the requested kind with the expected number of containers is
/// handed back as it is, whatever its values (nulls included); with another
/// number of containers it is `UnexpectedResult`.
pub proof fn law_matching_output_yields_its_containers(rows: RowsModel, count: nat)
    ensures
        rows.len() == count ==> spec_into_rows(OutputModel::PlSql(rows), true, count) == Ok::<
            Option<RowsModel>,
            Error,
        >(Some(rows)),
        rows.len() == count ==> spec_into_rows(OutputModel::DmlReturning(rows), false, count)
            == Ok::<Option<RowsModel>, Error>(Some(rows)),
        rows.len() != count ==> spec_into_rows(OutputModel::PlSql(rows), true, count) == Err::<
            Option<RowsModel>,
            Error,
        >(Error::UnexpectedResult),
        rows.len() != count ==> spec_into_rows(OutputModel::DmlReturning(rows), false, count)
            == Err::<Option<RowsModel>, Error>(Error::UnexpectedResult),
{
}

/// Asking for the kind of output that the execution did not produce is an
/// `ExecutionOutputKindMismatch` naming the kind asked for and the kind
/// found, whatever the containers and their number.
pub proof fn law_other_kind_is_a_mismatch(rows: RowsModel, count: nat)
    ensures
        spec_into_rows(OutputModel::PlSql(rows), false, count) == Err::<Option<RowsModel>, Error>(
            Error::ExecutionOutputKindMismatch {
                expected: OutputKind::DmlReturning,
                found: OutputKind::PlSql,
            },
        ),
        spec_into_rows(OutputModel::DmlReturning(rows), true, count) == Err::<
            Option<RowsModel>,
            Error,
        >(
            Error::ExecutionOutputKindMismatch {
                expected: OutputKind::PlSql,
                found: OutputKind::DmlReturning,
            },
        ),
{
}

/// Group `i` of a batch's DML RETURNING data is what a single execution
/// whose only container is container `i` returns: the batch succeeds exactly
/// when every container transposes, and then has one group per execution,
/// in order.
pub proof fn law_batch_groups_are_single_results(cs: RowsModel)
    ensures
        spec_batch_returned_data(OutputModel::DmlReturning(cs), cs.len()) is Ok <==> (forall|i: int|
            0 <= i < cs.len() ==> #[trigger] spec_returned_data(OutputModel::DmlReturning(seq![cs[i]]))
                is Ok),
        spec_batch_returned_data(OutputModel::DmlReturning(cs), cs.len()) matches Ok(res) ==> (
        res matches Some(groups) && groups.len() == cs.len() && forall|i: int|
            0 <= i < cs.len() ==> spec_returned_data(OutputModel::DmlReturning(seq![cs[i]])) == Ok::<
                Option<RowsModel>,
                Error,
            >(Some(#[trigger] groups[i]))),
{
    law_transpose_batch_elementwise(cs);
    assert forall|i: int| 0 <= i < cs.len() implies #[trigger] spec_returned_data(
        OutputModel::DmlReturning(seq![cs[i]]),
    ) == (match spec_transpose(cs[i]) {
        Err(e) => Err(e),
        Ok(rows) => Ok::<Option<RowsModel>, Error>(Some(rows)),
    }) by {
        assert(seq![cs[i]][0] == cs[i]);
    }
    if forall|i: int|
        0 <= i < cs.len() ==> #[trigger] spec_returned_data(OutputModel::DmlReturning(seq![cs[i]]))
            is Ok {
        assert forall|i: int| 0 <= i < cs.len() implies #[trigger] spec_transpose(cs[i]) is Ok by {
            assert(spec_returned_data(OutputModel::DmlReturning(seq![cs[i]])) is Ok);
        }
    }
}

/// A DML RETURNING reply with one container whose array columns each hold
/// exactly one value gives exactly one row, whatever the values (nulls
/// included): value `k` is the one element of column `k` when that column is
/// an array, and column `k` itself otherwise.
pub proof fn law_single_returned_row(c: Seq<Option<ValueModel>>)
    requires
        exists|k: int| 0 <= k < c.len() && #[trigger] c[k] matches Some(ValueModel::Array(_)),
        forall|k: int|
            0 <= k < c.len() ==> (#[trigger] c[k] matches Some(ValueModel::Array(a)) ==> a.len()
                == 1),
    ensures
        spec_returned_row(spec_new_output(false, false, true, Some(seq![c]))) matches Ok(row) && row.len()
            == c.len() && forall|k: int|
            0 <= k < c.len() ==> #[trigger] row[k] == (match c[k] {
                Some(ValueModel::Array(a)) => a[0],
                other => other,
            }),
{
    law_uniform_container_transposes(c, 1);
    assert(seq![c][0] == c);
    let rows = spec_transpose(c)->Ok_0;
    assert forall|k: int| 0 <= k < c.len() implies #[trigger] rows[0][k] == (match c[k] {
        Some(ValueModel::Array(a)) => a[0],
        other => other,
    }) by {}
}

} // verus!
