use vstd::prelude::*;

use crate::coerce::{coerce_with, coerced, rule_for, rule_of, CellValue, TypedCell};
use crate::error::RequestError;
use crate::matrix::{grid_cells, grid_cols, grid_from_rows, grid_rows, shape_fits, CellMatrix};

verus! {

/// One cell of a raw row: text, or `None` for SQL NULL.
pub type RawRow = Vec<Option<String>>;

/// A message of a simple-protocol query answer.
#[derive(Debug)]
pub enum QueryMessage {
    Row(RawRow),
    Other,
}

/// A column of the result: its name and the type name the database declares.
#[derive(Debug, Clone, PartialEq)]
pub struct Column {
    pub name: String,
    pub declared_type: String,
}

/// A successful answer: the columns and the matrix of cells, one row per
/// database row and one cell per column.
#[derive(Debug)]
pub struct QueryResult {
    pub columns: Vec<Column>,
    pub rows: CellMatrix,
}

impl QueryResult {
    /// The matrix has exactly one cell per column in each row.
    pub open spec fn wf(&self) -> bool {
        grid_cols(self.rows) == self.columns@.len()
    }

    /// The number of rows.
    pub open spec fn row_count(&self) -> nat {
        grid_rows(self.rows)
    }

    /// Cell `j` of row `i`.
    pub open spec fn cell(&self, i: int, j: int) -> CellValue {
        grid_cells(self.rows)[i * self.columns@.len() + j]
    }

    /// The matrix as a vector of rows.
    pub fn into_rows(self) -> (r: Vec<Vec<TypedCell>>)
        requires
            self.wf(),
        ensures
            r@.len() == self.row_count(),
            forall|i: int| 0 <= i < r@.len() ==> (#[trigger] r@[i])@.len() == self.columns@.len(),
            forall|i: int, j: int|
                0 <= i < r@.len() && 0 <= j < self.columns@.len() ==> (#[trigger] r@[i]@[j])@ == self.cell(i, j),
    {
        let cols = self.columns.len();
        let n = self.rows.nrows();
        let ghost grid = grid_cells(self.rows);
        let mut cells = self.rows.into_cells();
        proof {
            assert(cells@.len() == grid.len());
            assert forall|k: int| 0 <= k < cells@.len() implies (#[trigger] cells@[k])@ == grid[k] by {
                assert(crate::matrix::cell_views(cells@)[k] == cells@[k]@);
            }
        }
        let mut out: Vec<Vec<TypedCell>> = Vec::new();
        let mut i: usize = 0;
        while i < n
            invariant
                grid.len() == n * cols,
                i <= n,
                out@.len() == i,
                cells@.len() == (n - i) * cols,
                forall|k: int| 0 <= k < cells@.len() ==> (#[trigger] cells@[k])@ == grid[i * cols + k],
                forall|k: int| 0 <= k < i ==> (#[trigger] out@[k])@.len() == cols,
                forall|k: int, j: int| 0 <= k < i && 0 <= j < cols ==> (#[trigger] out@[k]@[j])@ == grid[k * cols + j],
            decreases n - i,
        {
            assert((n - i) * cols == cols + (n - (i + 1)) * cols) by (nonlinear_arith)
                requires i < n;
            let ghost before = cells@;
            let rest = cells.split_off(cols);
            let row = cells;
            cells = rest;
            proof {
                assert forall|k: int| 0 <= k < cells@.len() implies (#[trigger] cells@[k])@ == grid[(i + 1) * cols + k] by {
                    assert(before[cols + k]@ == grid[i * cols + cols + k]);
                    assert(i * cols + cols + k == (i + 1) * cols + k) by (nonlinear_arith);
                }
                assert forall|j: int| 0 <= j < cols implies (#[trigger] row@[j])@ == grid[i * cols + j] by {
                    assert(before[j]@ == grid[i * cols + j]);
                }
            }
            out.push(row);
            i = i + 1;
        }
        out
    }

    pub fn column_names(&self) -> (r: Vec<String>)
        ensures
            r@.len() == self.columns@.len(),
            forall|j: int| 0 <= j < r@.len() ==> #[trigger] r@[j] == self.columns@[j].name,
    {
        let mut r: Vec<String> = Vec::new();
        let mut j: usize = 0;
        while j < self.columns.len()
            invariant
                j <= self.columns@.len(),
                r@.len() == j,
                forall|k: int| 0 <= k < j ==> #[trigger] r@[k] == self.columns@[k].name,
            decreases self.columns@.len() - j,
        {
            r.push(self.columns[j].name.clone());
            j = j + 1;
        }
        r
    }

    pub fn column_types(&self) -> (r: Vec<String>)
        ensures
            r@.len() == self.columns@.len(),
            forall|j: int| 0 <= j < r@.len() ==> #[trigger] r@[j] == self.columns@[j].declared_type,
    {
        let mut r: Vec<String> = Vec::new();
        let mut j: usize = 0;
        while j < self.columns.len()
            invariant
                j <= self.columns@.len(),
                r@.len() == j,
                forall|k: int| 0 <= k < j ==> #[trigger] r@[k] == self.columns@[k].declared_type,
            decreases self.columns@.len() - j,
        {
            r.push(self.columns[j].declared_type.clone());
            j = j + 1;
        }
        r
    }
}

/// The rows at the head of a query answer, up to its first message that is
/// not a row.
pub open spec fn leading_rows(messages: Seq<QueryMessage>, rows: Seq<RawRow>) -> bool {
    &&& rows.len() <= messages.len()
    &&& forall|i: int| 0 <= i < rows.len() ==> #[trigger] messages[i] == QueryMessage::Row(rows[i])
    &&& rows.len() < messages.len() ==> messages[rows.len() as int] is Other
}

/// The leading rows of an answer are determined by it.
pub proof fn lemma_leading_rows_unique(messages: Seq<QueryMessage>, a: Seq<RawRow>, b: Seq<RawRow>)
    requires
        leading_rows(messages, a),
        leading_rows(messages, b),
    ensures
        a == b,
{
    if a.len() < b.len() {
        assert(messages[a.len() as int] == QueryMessage::Row(b[a.len() as int]));
    } else if b.len() < a.len() {
        assert(messages[b.len() as int] == QueryMessage::Row(a[b.len() as int]));
    }
    assert forall|i: int| 0 <= i < a.len() implies a[i] == b[i] by {
        assert(messages[i] == QueryMessage::Row(a[i]));
        assert(messages[i] == QueryMessage::Row(b[i]));
    }
    assert(a =~= b);
}

/// Relies on itertools::Itertools::while_some: the items of the leading run
/// of `Some`, up to the first `None`.
#[verifier::external_body]
fn while_some_rows(items: Vec<Option<RawRow>>) -> (r: Vec<RawRow>)
    ensures
        r@.len() <= items@.len(),
        forall|i: int| 0 <= i < r@.len() ==> #[trigger] items@[i] == Some(r@[i]),
        r@.len() < items@.len() ==> items@[r@.len() as int] is None,
{
    itertools::Itertools::while_some(items.into_iter()).collect()
}

/// The rows of the first result set of a simple-protocol answer.
pub fn first_query_rows(messages: Vec<QueryMessage>) -> (r: Vec<RawRow>)
    ensures
        leading_rows(messages@, r@),
{
    let ghost orig = messages@;
    let mut messages = messages;
    let mut items: Vec<Option<RawRow>> = Vec::new();
    while messages.len() > 0
        invariant
            items@.len() + messages@.len() == orig.len(),
            messages@ == orig.subrange(items@.len() as int, orig.len() as int),
            forall|i: int| 0 <= i < items@.len() ==> match #[trigger] items@[i] {
                Some(row) => orig[i] == QueryMessage::Row(row),
                None => orig[i] is Other,
            },
        decreases messages@.len(),
    {
        let m = messages.remove(0);
        let item = match m {
            QueryMessage::Row(row) => Some(row),
            QueryMessage::Other => None,
        };
        items.push(item);
    }
    let r = while_some_rows(items);
    assert forall|i: int| 0 <= i < r@.len() implies #[trigger] orig[i] == QueryMessage::Row(r@[i]) by {
        assert(items@[i] == Some(r@[i]));
    }
    r
}

/// The text of cell `j` of a raw row; `None` for SQL NULL or past the row's end.
pub open spec fn cell_text(row: Seq<Option<String>>, j: int) -> Option<Seq<char>> {
    if 0 <= j < row.len() {
        match row[j] {
            Some(s) => Some(s@),
            None => None,
        }
    } else {
        None
    }
}

/// A catalog row names a column and its type.
pub open spec fn describes_column(row: Seq<Option<String>>) -> bool {
    cell_text(row, 0) is Some && cell_text(row, 1) is Some
}

fn cell_ref(row: &RawRow, j: usize) -> (r: Option<&str>)
    ensures
        crate::coerce::text_of(r) == cell_text(row@, j as int),
{
    if j < row.len() {
        match &row[j] {
            Some(s) => Some(s.as_str()),
            None => None,
        }
    } else {
        None
    }
}

/// Reads the column list from the catalog rows (name, declared type), in order.
pub fn describe_columns(catalog: &Vec<RawRow>) -> (r: Result<Vec<Column>, RequestError>)
    ensures
        r is Ok <==> forall|i: int| 0 <= i < catalog@.len() ==> describes_column(#[trigger] catalog@[i]@),
        r is Ok ==> r->Ok_0@.len() == catalog@.len() && forall|i: int|
            0 <= i < catalog@.len() ==> (#[trigger] r->Ok_0@[i]).name@ == cell_text(catalog@[i]@, 0)->0
                && r->Ok_0@[i].declared_type@ == cell_text(catalog@[i]@, 1)->0,
        r is Err ==> r->Err_0 is Schema,
{
    let mut columns: Vec<Column> = Vec::new();
    let mut i: usize = 0;
    while i < catalog.len()
        invariant
            i <= catalog@.len(),
            columns@.len() == i,
            forall|k: int| 0 <= k < i ==> describes_column(#[trigger] catalog@[k]@),
            forall|k: int|
                0 <= k < i ==> (#[trigger] columns@[k]).name@ == cell_text(catalog@[k]@, 0)->0
                    && columns@[k].declared_type@ == cell_text(catalog@[k]@, 1)->0,
        decreases catalog@.len() - i,
    {
        let row = &catalog[i];
        let name = cell_ref(row, 0);
        let declared_type = cell_ref(row, 1);
        match (name, declared_type) {
            (Some(n), Some(t)) => {
                columns.push(Column { name: n.to_owned(), declared_type: t.to_owned() });
            },
            _ => {
                return Err(RequestError::Schema);
            },
        }
        i = i + 1;
    }
    Ok(columns)
}

/// Cell `(i, j)` converts under its column's rule.
pub open spec fn cell_converts(columns: Seq<Column>, rows: Seq<RawRow>, i: int, j: int) -> bool {
    coerced(rule_of(columns[j].declared_type@), cell_text(rows[i]@, j)) is Some
}

/// Row `i` has one cell per column, and each of its cells converts.
pub open spec fn row_converts(columns: Seq<Column>, rows: Seq<RawRow>, i: int) -> bool {
    &&& rows[i]@.len() == columns.len()
    &&& forall|j: int| 0 <= j < columns.len() ==> cell_converts(columns, rows, i, j)
}

/// Cell `j` of row `i` is the first of its row that does not convert, and `e`
/// is the conversion error that names its text.
pub open spec fn cell_failure_at(columns: Seq<Column>, rows: Seq<RawRow>, i: int, j: int, e: RequestError) -> bool {
    &&& 0 <= j < columns.len()
    &&& !cell_converts(columns, rows, i, j)
    &&& forall|j2: int| 0 <= j2 < j ==> cell_converts(columns, rows, i, j2)
    &&& e matches RequestError::TypeConversion(t) && Some(t@) == cell_text(rows[i]@, j)
}

/// Row `i` is the first row that fails, and `e` is its error: `Internal` for
/// a row whose width is not the number of columns, else the error of its
/// first cell that does not convert.
pub open spec fn failure_at(columns: Seq<Column>, rows: Seq<RawRow>, i: int, e: RequestError) -> bool {
    &&& 0 <= i < rows.len()
    &&& forall|i2: int| 0 <= i2 < i ==> row_converts(columns, rows, i2)
    &&& if rows[i]@.len() != columns.len() {
        e == RequestError::Internal
    } else {
        exists|j: int| cell_failure_at(columns, rows, i, j, e)
    }
}

/// `e` is the error of the first row, in order, that fails.
pub open spec fn first_failure(columns: Seq<Column>, rows: Seq<RawRow>, e: RequestError) -> bool {
    exists|i: int| failure_at(columns, rows, i, e)
}

/// Coerces every cell of every raw row under its column's declared type.
/// Rows are taken in order; the first row whose width is not the number of
/// columns, or whose cell (left to right) does not convert, stops it.
pub fn coerce_rows(columns: &Vec<Column>, rows: &Vec<RawRow>) -> (r: Result<Vec<Vec<TypedCell>>, RequestError>)
    ensures
        r is Ok <==> forall|i: int| 0 <= i < rows@.len() ==> row_converts(columns@, rows@, i),
        r is Ok ==> r->Ok_0@.len() == rows@.len() && forall|i: int| 0 <= i < rows@.len() ==> {
            &&& (#[trigger] r->Ok_0@[i])@.len() == columns@.len()
            &&& forall|j: int| 0 <= j < columns@.len() ==> Some((#[trigger] r->Ok_0@[i]@[j])@)
                == coerced(rule_of(columns@[j].declared_type@), cell_text(rows@[i]@, j))
        },
        r is Err ==> first_failure(columns@, rows@, r->Err_0),
{
    let mut out: Vec<Vec<TypedCell>> = Vec::new();
    let mut i: usize = 0;
    while i < rows.len()
        invariant
            i <= rows@.len(),
            out@.len() == i,
            forall|i2: int| 0 <= i2 < i ==> row_converts(columns@, rows@, i2),
            forall|k: int| 0 <= k < i ==> {
                &&& (#[trigger] out@[k])@.len() == columns@.len()
                &&& forall|j: int| 0 <= j < columns@.len() ==> Some((#[trigger] out@[k]@[j])@)
                    == coerced(rule_of(columns@[j].declared_type@), cell_text(rows@[k]@, j))
            },
        decreases rows@.len() - i,
    {
        let row = &rows[i];
        if row.len() != columns.len() {
            assert(failure_at(columns@, rows@, i as int, RequestError::Internal));
            assert(!row_converts(columns@, rows@, i as int));
            return Err(RequestError::Internal);
        }
        let mut cells: Vec<TypedCell> = Vec::new();
        let mut j: usize = 0;
        while j < columns.len()
            invariant
                i < rows@.len(),
                row == rows@[i as int],
                row@.len() == columns@.len(),
                j <= columns@.len(),
                cells@.len() == j,
                forall|i2: int| 0 <= i2 < i ==> row_converts(columns@, rows@, i2),
                forall|j2: int| 0 <= j2 < j ==> cell_converts(columns@, rows@, i as int, j2),
                forall|j2: int| 0 <= j2 < j ==> Some((#[trigger] cells@[j2])@)
                    == coerced(rule_of(columns@[j2].declared_type@), cell_text(rows@[i as int]@, j2)),
            decreases columns@.len() - j,
        {
            let rule = rule_for(columns[j].declared_type.as_str());
            match coerce_with(rule, cell_ref(row, j)) {
                Ok(c) => {
                    cells.push(c);
                },
                Err(e) => {
                    assert(cell_failure_at(columns@, rows@, i as int, j as int, e));
                    assert(failure_at(columns@, rows@, i as int, e));
                    assert(!row_converts(columns@, rows@, i as int));
                    return Err(e);
                },
            }
            j = j + 1;
        }
        assert(row_converts(columns@, rows@, i as int));
        out.push(cells);
        i = i + 1;
    }
    Ok(out)
}

/// Assembles a result, rejecting a matrix whose rows do not have one cell per
/// column, or whose shape the grid cannot hold.
pub fn build_result(columns: Vec<Column>, rows: Vec<Vec<TypedCell>>) -> (r: Result<QueryResult, RequestError>)
    ensures
        r is Ok <==> shape_fits(rows@.len() as usize, columns@.len() as usize) && forall|i: int|
            0 <= i < rows@.len() ==> #[trigger] rows@[i]@.len() == columns@.len(),
        r is Ok ==> {
            &&& r->Ok_0.columns == columns
            &&& r->Ok_0.wf()
            &&& r->Ok_0.row_count() == rows@.len()
            &&& forall|i: int, j: int|
                0 <= i < rows@.len() && 0 <= j < columns@.len() ==> r->Ok_0.cell(i, j) == (#[trigger] rows@[i]@[j])@
        },
        r is Err ==> r->Err_0 is Internal,
{
    match grid_from_rows(columns.len(), rows) {
        Some(grid) => Ok(QueryResult { columns, rows: grid }),
        None => Err(RequestError::Internal),
    }
}

} // verus!
