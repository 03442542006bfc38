use std::sync::Arc;
use vstd::prelude::*;

use crate::error::Error;
use crate::row::{Metadata, Row, RowData};
use crate::value::{model, opt_model, values_model, DbValue, ValueModel};

verus! {

/// Whether a column of a container holds an array of values.
pub open spec fn is_array(col: Option<ValueModel>) -> bool {
    col matches Some(ValueModel::Array(_))
}

/// The number of values in an array column.
pub open spec fn array_len(col: Option<ValueModel>) -> nat {
    match col {
        Some(ValueModel::Array(a)) => a.len(),
        _ => 0,
    }
}

/// Whether some column of the container is an array.
pub open spec fn has_array(c: Seq<Option<ValueModel>>) -> bool {
    exists|k: int| 0 <= k < c.len() && #[trigger] is_array(c[k])
}

/// Whether every array column of the container holds exactly `n` values.
pub open spec fn uniform(c: Seq<Option<ValueModel>>, n: nat) -> bool {
    forall|k: int| 0 <= k < c.len() && #[trigger] is_array(c[k]) ==> array_len(c[k]) == n
}

/// The number of rows that the array columns of a well-formed container describe.
pub open spec fn row_count(c: Seq<Option<ValueModel>>) -> nat {
    choose|n: nat| uniform(c, n)
}

/// The value that row `r` takes from a column: the `r`-th element of an
/// array column, or the column's own value (a scalar or null) repeated.
pub open spec fn cell(col: Option<ValueModel>, r: int) -> Option<ValueModel> {
    match col {
        Some(ValueModel::Array(a)) => a[r],
        _ => col,
    }
}

/// The `n` rows described by a container whose array columns all hold `n` values.
pub open spec fn transposed(c: Seq<Option<ValueModel>>, n: nat) -> Seq<Seq<Option<ValueModel>>> {
    Seq::new(n, |r: int| Seq::new(c.len(), |k: int| cell(c[k], r)))
}

/// What transposing a columnar container yields: no rows for a container
/// without columns; the container itself as the only row when no column is
/// an array; an error when the array columns differ in length; else one
/// row per array element.
pub open spec fn spec_transpose(c: Seq<Option<ValueModel>>) -> Result<
    Seq<Seq<Option<ValueModel>>>,
    Error,
> {
    if c.len() == 0 {
        Ok(Seq::empty())
    } else if !has_array(c) {
        Ok(seq![c])
    } else if exists|n: nat| uniform(c, n) {
        Ok(transposed(c, row_count(c)))
    } else {
        Err(Error::UnexpectedResult)
    }
}

/// Whether `rows` are exactly the value rows `expected`, each described by `columns`.
pub open spec fn rows_match(
    rows: Seq<Row>,
    expected: Seq<Seq<Option<ValueModel>>>,
    columns: Seq<Metadata>,
) -> bool {
    &&& rows.len() == expected.len()
    &&& forall|i: int|
        0 <= i < rows.len() ==> (#[trigger] rows[i]).values_spec() == expected[i]
            && rows[i].columns_spec() == columns
}

/// Whether `res` is the outcome `spec` on rows described by `columns`.
pub open spec fn result_matches(
    res: Result<Vec<Row>, Error>,
    spec: Result<Seq<Seq<Option<ValueModel>>>, Error>,
    columns: Seq<Metadata>,
) -> bool {
    match spec {
        Ok(expected) => res matches Ok(rows) && rows_match(rows@, expected, columns),
        Err(e) => res == Err::<Vec<Row>, Error>(e),
    }
}

/// What transposing a batch of containers yields: the rows of each
/// container, in order, or the error of the first container that fails.
pub open spec fn spec_transpose_batch(cs: Seq<Seq<Option<ValueModel>>>) -> Result<
    Seq<Seq<Seq<Option<ValueModel>>>>,
    Error,
>
    decreases cs.len(),
{
    if cs.len() == 0 {
        Ok(Seq::empty())
    } else {
        match spec_transpose_batch(cs.drop_last()) {
            Err(e) => Err(e),
            Ok(prev) => match spec_transpose(cs.last()) {
                Err(e) => Err(e),
                Ok(rows) => Ok(prev.push(rows)),
            },
        }
    }
}

/// Whether `groups` are exactly the groups of value rows `expected`.
pub open spec fn groups_match(
    groups: Seq<Vec<Row>>,
    expected: Seq<Seq<Seq<Option<ValueModel>>>>,
    columns: Seq<Metadata>,
) -> bool {
    &&& groups.len() == expected.len()
    &&& forall|i: int| 0 <= i < groups.len() ==> rows_match(#[trigger] groups[i]@, expected[i], columns)
}

/// Whether `res` is the outcome `spec` on groups of rows described by `columns`.
pub open spec fn batch_result_matches(
    res: Result<Vec<Vec<Row>>, Error>,
    spec: Result<Seq<Seq<Seq<Option<ValueModel>>>>, Error>,
    columns: Seq<Metadata>,
) -> bool {
    match spec {
        Ok(expected) => res matches Ok(groups) && groups_match(groups@, expected, columns),
        Err(e) => res == Err::<Vec<Vec<Row>>, Error>(e),
    }
}

/// The columns of each container of a batch.
pub open spec fn batch_data(raw: Seq<RawColumnarData>) -> Seq<Seq<Option<ValueModel>>> {
    raw.map_values(|x: RawColumnarData| x.data_spec())
}

/// The items of a vector in reverse order.
pub(crate) fn reversed<T>(v: Vec<T>) -> (r: Vec<T>)
    ensures
        r@.len() == v@.len(),
        forall|i: int| 0 <= i < v@.len() ==> #[trigger] r@[i] == v@[v@.len() - 1 - i],
{
    let ghost orig = v@;
    let mut v = v;
    let mut out: Vec<T> = Vec::new();
    while v.len() > 0
        invariant
            v@.len() + out@.len() == orig.len(),
            forall|i: int| 0 <= i < v@.len() ==> #[trigger] v@[i] == orig[i],
            forall|i: int| 0 <= i < out@.len() ==> #[trigger] out@[i] == orig[orig.len() - 1 - i],
        decreases v@.len(),
    {
        if let Some(x) = v.pop() {
            out.push(x);
        }
    }
    out
}

/// A statement's raw columnar container, which must be transposed before its
/// values can be turned into rows.
pub struct RawColumnarData(RowData);

impl RawColumnarData {
    /// Wraps a raw container.
    pub fn new(data: RowData) -> (r: Self)
        ensures
            r.data_spec() == values_model(data@),
    {
        Self(data)
    }

    /// The container's columns.
    pub closed spec fn data_spec(&self) -> Seq<Option<ValueModel>> {
        values_model(self.0@)
    }
}

/// `n` independent copies of one value.
fn replicate(value: &Option<DbValue>, n: usize) -> (r: Vec<Option<DbValue>>)
    ensures
        r@.len() == n,
        forall|i: int| 0 <= i < n ==> opt_model(#[trigger] r@[i]) == opt_model(*value),
{
    let mut out: Vec<Option<DbValue>> = Vec::with_capacity(n);
    let mut i: usize = 0;
    while i < n
        invariant
            i <= n,
            out@.len() == i,
            forall|k: int| 0 <= k < i ==> opt_model(#[trigger] out@[k]) == opt_model(*value),
        decreases n - i,
    {
        let copy = match value {
            Some(v) => Some(v.duplicate()),
            None => None,
        };
        out.push(copy);
        i += 1;
    }
    out
}

/// Conversion of raw columnar data into rows.
pub trait TransposeData {
    type Output;

    fn transpose(self, column_info: &Arc<Vec<Metadata>>) -> Result<Self::Output, Error>;
}

impl TransposeData for RawColumnarData {
    type Output = Vec<Row>;

    fn transpose(self, column_info: &Arc<Vec<Metadata>>) -> (res: Result<Vec<Row>, Error>)
        ensures
            result_matches(res, spec_transpose(self.data_spec()), column_info@),
    {
        let mut container_row = self.0;
        let ghost c = values_model(container_row@);
        let num_cols = container_row.len();
        if num_cols == 0 {
            return Ok(Vec::new());
        }
        // Every array column must hold the same number of values.

        let mut num_rows: Option<usize> = None;
        let mut i: usize = 0;
        while i < num_cols
            invariant
                num_cols == container_row@.len() == c.len(),
                c == values_model(container_row@),
                c == self.data_spec(),
                i <= num_cols,
                num_rows is None <==> (forall|k: int| 0 <= k < i ==> !#[trigger] is_array(c[k])),
                num_rows matches Some(n) ==> {
                    &&& exists|k: int| 0 <= k < i && #[trigger] is_array(c[k]) && array_len(c[k]) == n
                    &&& forall|k: int|
                        0 <= k < i && #[trigger] is_array(c[k]) ==> array_len(c[k]) == n
                },
            decreases num_cols - i,
        {
            assert(c[i as int] == opt_model(container_row@[i as int]));
            match &container_row[i] {
                Some(DbValue::Array(arr)) => {
                    assert(is_array(c[i as int]) && array_len(c[i as int]) == arr@.len());
                    match num_rows {
                        None => {
                            num_rows = Some(arr.len());
                        },
                        Some(n) => {
                            if n != arr.len() {
                                assert(!exists|m: nat| uniform(c, m)) by {
                                    if exists|m: nat| uniform(c, m) {
                                        let m = choose|m: nat| uniform(c, m);
                                        let w = choose|w: int|
                                            0 <= w < i && #[trigger] is_array(c[w]) && array_len(c[w]) == n;
                                        assert(is_array(c[w]));
                                        assert(is_array(c[i as int]));
                                    }
                                }
                                assert(has_array(c));
                                return Err(Error::unexpected_result());
                            }
                        },
                    }
                },
                _ => {
                    assert(!is_array(c[i as int]));
                },
            }
            i += 1;
        }
        let num_rows = match num_rows {
            None => {
                assert(!has_array(c));
                let mut rows: Vec<Row> = Vec::new();
                rows.push(Row::new(column_info, container_row));
                return Ok(rows);
            },
            Some(n) => n,
        };
        assert(uniform(c, num_rows as nat));
        assert(has_array(c));
        assert(row_count(c) == num_rows);
        if num_rows == 0 {
            assert(transposed(c, 0) =~= Seq::empty());
            return Ok(Vec::new());
        }
        // Unpack every column into `num_rows` values.

        let mut columns: Vec<Vec<Option<DbValue>>> = Vec::with_capacity(num_cols);
        let mut i: usize = 0;
        while i < num_cols
            invariant
                num_cols == container_row@.len() == c.len(),
                uniform(c, num_rows as nat),
                i <= num_cols,
                columns@.len() == i,
                forall|k: int| i <= k < num_cols ==> opt_model(#[trigger] container_row@[k]) == c[k],
                forall|k: int| 0 <= k < i ==> (#[trigger] columns@[k])@.len() == num_rows,
                forall|k: int, r: int|
                    0 <= k < i && 0 <= r < num_rows ==> opt_model(#[trigger] columns@[k]@[r])
                        == cell(c[k], r),
            decreases num_cols - i,
        {
            let col_opt = container_row[i].take();
            assert(opt_model(col_opt) == c[i as int]);
            match col_opt {
                Some(DbValue::Array(arr)) => {
                    assert(is_array(c[i as int]));
                    assert forall|r: int| 0 <= r < num_rows implies opt_model(#[trigger] arr@[r])
                        == cell(c[i as int], r) by {
                        assert(values_model(arr@)[r] == opt_model(arr@[r]));
                    }
                    columns.push(arr);
                },
                Some(scalar) => {
                    let column = replicate(&Some(scalar), num_rows);
                    columns.push(column);
                },
                None => {
                    let column = replicate(&None, num_rows);
                    columns.push(column);
                },
            }
            i += 1;
        }
        // Take the values row by row, one from each column.

        let ghost expected = transposed(c, num_rows as nat);
        let mut rows: Vec<Row> = Vec::with_capacity(num_rows);
        let mut r: usize = 0;
        while r < num_rows
            invariant
                num_cols == c.len(),
                expected == transposed(c, num_rows as nat),
                columns@.len() == num_cols,
                r <= num_rows,
                forall|k: int| 0 <= k < num_cols ==> (#[trigger] columns@[k])@.len() == num_rows,
                forall|k: int, rr: int|
                    0 <= k < num_cols && r <= rr < num_rows ==> opt_model(
                        #[trigger] columns@[k]@[rr],
                    ) == cell(c[k], rr),
                rows_match(rows@, expected.take(r as int), column_info@),
            decreases num_rows - r,
        {
            let mut row_values: Vec<Option<DbValue>> = Vec::with_capacity(num_cols);
            let mut k: usize = 0;
            while k < num_cols
                invariant
                    num_cols == c.len(),
                    columns@.len() == num_cols,
                    r < num_rows,
                    k <= num_cols,
                    row_values@.len() == k,
                    forall|j: int| 0 <= j < num_cols ==> (#[trigger] columns@[j])@.len() == num_rows,
                    forall|j: int, rr: int|
                        0 <= j < num_cols && r < rr < num_rows ==> opt_model(
                            #[trigger] columns@[j]@[rr],
                        ) == cell(c[j], rr),
                    forall|j: int|
                        k <= j < num_cols ==> opt_model(#[trigger] columns@[j]@[r as int]) == cell(
                            c[j],
                            r as int,
                        ),
                    forall|j: int|
                        0 <= j < k ==> opt_model(#[trigger] row_values@[j]) == cell(c[j], r as int),
                decreases num_cols - k,
            {
                let value = columns[k][r].take();
                row_values.push(value);
                k += 1;
            }
            assert(values_model(row_values@) =~= expected[r as int]);
            rows.push(Row::new(column_info, row_values));
            r += 1;
            assert(expected.take(r as int) =~= expected.take(r - 1).push(expected[r - 1]));
        }
        assert(expected.take(num_rows as int) =~= expected);
        Ok(rows)
    }
}

impl TransposeData for Vec<RawColumnarData> {
    type Output = Vec<Vec<Row>>;

    fn transpose(self, column_info: &Arc<Vec<Metadata>>) -> (res: Result<Vec<Vec<Row>>, Error>)
        ensures
            batch_result_matches(res, spec_transpose_batch(batch_data(self@)), column_info@),
    {
        let ghost orig = self@;
        let mut pending = reversed(self);
        let mut groups: Vec<Vec<Row>> = Vec::new();
        while pending.len() > 0
            invariant
                orig == self@,
                pending@.len() + groups@.len() == orig.len(),
                forall|i: int|
                    0 <= i < pending@.len() ==> #[trigger] pending@[i] == orig[orig.len() - 1 - i],
                spec_transpose_batch(batch_data(orig.take(groups@.len() as int))) matches Ok(
                    expected,
                ) && groups_match(groups@, expected, column_info@),
            decreases pending@.len(),
        {
            let ghost done: int = groups@.len() as int;
            let raw = match pending.pop() {
                Some(raw) => raw,
                None => {
                    return Ok(groups);
                },
            };
            assert(raw == orig[done]);
            assert(batch_data(orig.take(done + 1)).drop_last() =~= batch_data(orig.take(done)));
            assert(batch_data(orig.take(done + 1)).last() == raw.data_spec());
            let rows = match raw.transpose(column_info) {
                Ok(rows) => rows,
                Err(e) => {
                    assert(batch_data(orig).take(done + 1) =~= batch_data(orig.take(done + 1)));
                    proof { lemma_batch_error_persists(batch_data(orig), done + 1); }
                    return Err(e);
                },
            };
            groups.push(rows);
        }
        assert(orig.take(orig.len() as int) =~= orig);
        Ok(groups)
    }
}

/// Once a prefix of a batch fails to transpose, so does every longer prefix,
/// with the same error.
proof fn lemma_batch_error_persists(cs: Seq<Seq<Option<ValueModel>>>, k: int)
    requires
        0 <= k <= cs.len(),
        spec_transpose_batch(cs.take(k)) is Err,
    ensures
        spec_transpose_batch(cs) == spec_transpose_batch(cs.take(k)),
    decreases cs.len() - k,
{
    if k < cs.len() {
        assert(cs.take(k + 1).drop_last() =~= cs.take(k));
        lemma_batch_error_persists(cs, k + 1);
    } else {
        assert(cs.take(k) =~= cs);
    }
}

/// Transposition keeps the shape of the container: every row has one value
/// per column; a container without arrays is its own single row; otherwise
/// there are as many rows as each array column has values.
pub proof fn law_transpose_shape(c: Seq<Option<ValueModel>>)
    ensures
        spec_transpose(c) matches Ok(rows) ==> {
            &&& forall|r: int| 0 <= r < rows.len() ==> (#[trigger] rows[r]).len() == c.len()
            &&& (c.len() > 0 && !has_array(c)) ==> rows == seq![c]
            &&& has_array(c) ==> forall|k: int|
                0 <= k < c.len() && #[trigger] is_array(c[k]) ==> array_len(c[k]) == rows.len()
        },
{
}

/// Transposition spreads each array column down the rows and repeats every
/// other column (scalar or null) in each row: value `k` of row `r` is element
/// `r` of column `k` when that column is an array, and column `k` otherwise.
pub proof fn law_transpose_cells(c: Seq<Option<ValueModel>>, r: int, k: int)
    requires
        has_array(c),
        spec_transpose(c) is Ok,
        0 <= r < spec_transpose(c)->Ok_0.len(),
        0 <= k < c.len(),
    ensures
        spec_transpose(c)->Ok_0[r][k] == (match c[k] {
            Some(ValueModel::Array(a)) => a[r],
            other => other,
        }),
{
}

/// Array columns of different lengths make the container malformed.
pub proof fn law_transpose_rejects_ragged(c: Seq<Option<ValueModel>>, i: int, j: int)
    requires
        0 <= i < c.len(),
        0 <= j < c.len(),
        is_array(c[i]),
        is_array(c[j]),
        array_len(c[i]) != array_len(c[j]),
    ensures
        spec_transpose(c) == Err::<Seq<Seq<Option<ValueModel>>>, Error>(Error::UnexpectedResult),
{
    assert(has_array(c));
    if exists|n: nat| uniform(c, n) {
        let n = choose|n: nat| uniform(c, n);
        assert(array_len(c[i]) == n);
    }
}

/// A container whose array columns all hold the same number `n` of values
/// is accepted, whatever the values (nulls included): it transposes into the
/// container itself as the only row when it has no array column (into no
/// rows when it has no column), and otherwise into `n` rows in which value
/// `k` of row `r` is element `r` of column `k` when that column is an array,
/// and column `k` itself otherwise.
pub proof fn law_uniform_container_transposes(c: Seq<Option<ValueModel>>, n: nat)
    requires
        forall|k: int|
            0 <= k < c.len() ==> (#[trigger] c[k] matches Some(ValueModel::Array(a)) ==> a.len()
                == n),
    ensures
        spec_transpose(c) is Ok,
        c.len() == 0 ==> spec_transpose(c)->Ok_0.len() == 0,
        (c.len() > 0 && forall|k: int| 0 <= k < c.len() ==> !(#[trigger] c[k] matches Some(ValueModel::Array(_))))
            ==> spec_transpose(c)->Ok_0 == seq![c],
        (exists|k: int| 0 <= k < c.len() && #[trigger] c[k] matches Some(ValueModel::Array(_))) ==> {
            let rows = spec_transpose(c)->Ok_0;
            &&& rows.len() == n
            &&& forall|r: int| 0 <= r < n ==> (#[trigger] rows[r]).len() == c.len()
            &&& forall|r: int, k: int|
                0 <= r < n && 0 <= k < c.len() ==> #[trigger] rows[r][k] == (match c[k] {
                    Some(ValueModel::Array(a)) => a[r],
                    other => other,
                })
        },
{
    assert(uniform(c, n));
    if exists|k: int| 0 <= k < c.len() && #[trigger] c[k] matches Some(ValueModel::Array(_)) {
        let k = choose|k: int| 0 <= k < c.len() && #[trigger] c[k] matches Some(ValueModel::Array(_));
        assert(is_array(c[k]));
        assert(has_array(c));
        assert(row_count(c) == n);
    } else {
        assert(!has_array(c));
    }
}

/// A batch transposes container by container: it succeeds exactly when every
/// container does, and then group `i` holds the rows of container `i`, at
/// its position, empty groups included; otherwise it fails with the error of
/// the first container that fails.
pub proof fn law_transpose_batch_elementwise(cs: Seq<Seq<Option<ValueModel>>>)
    ensures
        spec_transpose_batch(cs) is Ok <==> (forall|i: int|
            0 <= i < cs.len() ==> #[trigger] spec_transpose(cs[i]) is Ok),
        spec_transpose_batch(cs) matches Ok(groups) ==> groups.len() == cs.len() && forall|i: int|
            0 <= i < cs.len() ==> Ok::<Seq<Seq<Option<ValueModel>>>, Error>(#[trigger] groups[i])
                == spec_transpose(cs[i]),
        spec_transpose_batch(cs) matches Err(e) ==> exists|i: int|
            0 <= i < cs.len() && spec_transpose(#[trigger] cs[i]) == Err::<
                Seq<Seq<Option<ValueModel>>>,
                Error,
            >(e) && forall|j: int| 0 <= j < i ==> #[trigger] spec_transpose(cs[j]) is Ok,
    decreases cs.len(),
{
    if cs.len() > 0 {
        let prefix = cs.drop_last();
        law_transpose_batch_elementwise(prefix);
        assert(forall|i: int| 0 <= i < prefix.len() ==> prefix[i] == cs[i]);
        if spec_transpose_batch(prefix) is Err {
            let e = spec_transpose_batch(prefix)->Err_0;
            let i = choose|i: int|
                0 <= i < prefix.len() && spec_transpose(#[trigger] prefix[i]) == Err::<
                    Seq<Seq<Option<ValueModel>>>,
                    Error,
                >(e) && forall|j: int| 0 <= j < i ==> #[trigger] spec_transpose(prefix[j]) is Ok;
            assert(spec_transpose(cs[i]) is Err);
        } else if spec_transpose(cs.last()) is Err {
            assert(spec_transpose(cs[cs.len() - 1]) is Err);
        }
    }
}

} // verus!
