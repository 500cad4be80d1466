//! Tables of delays and of real numbers, held by `ndarray`.

use vstd::prelude::*;

use crate::double::Double;

verus! {

/// `n`, or 1 in the place of 0.
pub open spec fn nonzero(n: nat) -> nat {
    if n == 0 {
        1
    } else {
        n
    }
}

/// Is a table of this shape small enough to be addressed?
pub open spec fn addressable(rows: nat, cols: nat) -> bool {
    nonzero(rows) * nonzero(cols) <= isize::MAX
}

/// The values `flat` in rows of `cols` each.
pub open spec fn in_rows<T>(flat: Seq<T>, rows: nat, cols: nat) -> Seq<Seq<T>> {
    Seq::new(rows, |i: int| Seq::new(cols, |j: int| flat[i * cols + j]))
}

/// Is `cells` a table with rows of `cols` cells?
pub open spec fn is_grid<T>(cells: Seq<Seq<T>>, cols: nat) -> bool {
    forall|i: int| 0 <= i < cells.len() ==> (#[trigger] cells[i]).len() == cols
}

/// A table of delays: a row for each tile, a column for each bowtie.
#[verifier::external_body]
pub struct DelayTable {
    cells: ndarray::Array2<u32>,
}

/// The cells of a table of delays, row by row.
pub uninterp spec fn delay_cells(table: DelayTable) -> Seq<Seq<u32>>;

/// The number of columns of a table of delays, which has one even where it has no row.
pub uninterp spec fn delay_cols(table: DelayTable) -> nat;

/// `ndarray`'s `Array2::from_shape_vec`, in its default (row-major) layout: it gives a table with
/// the values in rows, and gives none exactly where the shape cannot be addressed or does not
/// match the number of values.
#[verifier::external_body]
fn delays_from_shape_vec(rows: usize, cols: usize, flat: Vec<u32>) -> (table: Option<DelayTable>)
    ensures
        table.is_some() == (addressable(rows as nat, cols as nat) && flat@.len() == rows * cols),
        table.is_some() ==> delay_cells(table->0) == in_rows(flat@, rows as nat, cols as nat),
        table.is_some() ==> delay_cols(table->0) == cols,
{
    match ndarray::Array2::from_shape_vec((rows, cols), flat) {
        Ok(cells) => Some(DelayTable { cells }),
        Err(_) => None,
    }
}

/// `ndarray`'s `ArrayBase::len_of`: axis 0 counts the rows, axis 1 the columns, and every row has
/// a cell for each column.
#[verifier::external_body]
fn delays_len_of(table: &DelayTable, axis: usize) -> (n: usize)
    requires
        axis < 2,
    ensures
        axis == 0 ==> n == delay_cells(*table).len(),
        axis == 1 ==> n == delay_cols(*table) && is_grid(delay_cells(*table), n as nat),
{
    table.cells.len_of(ndarray::Axis(axis))
}

/// `ndarray`'s indexing of an `Array2` by row and column.
#[verifier::external_body]
fn delays_index(table: &DelayTable, row: usize, col: usize) -> (cell: u32)
    requires
        row < delay_cells(*table).len(),
        col < delay_cols(*table),
    ensures
        cell == delay_cells(*table)[row as int][col as int],
{
    table.cells[[row, col]]
}

impl View for DelayTable {
    type V = Seq<Seq<u32>>;

    open spec fn view(&self) -> Seq<Seq<u32>> {
        delay_cells(*self)
    }
}

impl DelayTable {
    /// The number of columns.
    pub open spec fn cols(&self) -> nat {
        delay_cols(*self)
    }

    /// A table with the values `flat` in rows of `cols` each, or none where they do not fill
    /// exactly `rows` rows.
    pub fn new(rows: usize, cols: usize, flat: Vec<u32>) -> (table: Option<DelayTable>)
        ensures
            table is Some <==> addressable(rows as nat, cols as nat) && flat@.len() == rows * cols,
            table matches Some(t) ==> t@ == in_rows(flat@, rows as nat, cols as nat) && t.cols()
                == cols,
    {
        delays_from_shape_vec(rows, cols, flat)
    }

    /// The number of rows.
    pub fn num_rows(&self) -> (n: usize)
        ensures
            n == self@.len(),
    {
        delays_len_of(self, 0)
    }

    /// The number of columns.
    pub fn num_cols(&self) -> (n: usize)
        ensures
            n == self.cols(),
            is_grid(self@, n as nat),
    {
        delays_len_of(self, 1)
    }

    /// A copy of a row.
    pub fn row(&self, row: usize) -> (cells: Vec<u32>)
        requires
            row < self@.len(),
        ensures
            cells@ == self@[row as int],
            cells@.len() == self.cols(),
    {
        let cols = self.num_cols();
        let mut cells: Vec<u32> = Vec::with_capacity(cols);
        let mut col: usize = 0;
        assert(self@[row as int].len() == cols);
        while col < cols
            invariant
                row < self@.len(),
                col <= cols,
                cols == self.cols(),
                self@[row as int].len() == cols,
                cells@ =~= self@[row as int].take(col as int),
            decreases cols - col,
        {
            cells.push(delays_index(self, row, col));
            col = col + 1;
        }
        cells
    }
}

/// A table of real numbers: the gains of tiles, or the coordinates of a station's elements.
#[verifier::external_body]
pub struct RealTable {
    cells: ndarray::Array2<Double>,
}

/// The cells of a table of real numbers, row by row.
pub uninterp spec fn real_cells(table: RealTable) -> Seq<Seq<Double>>;

/// The number of columns of a table of real numbers, which has one even where it has no row.
pub uninterp spec fn real_cols(table: RealTable) -> nat;

/// `ndarray`'s `Array2::from_shape_vec`, in its default (row-major) layout: it gives a table with
/// the values in rows, and gives none exactly where the shape cannot be addressed or does not
/// match the number of values.
#[verifier::external_body]
fn reals_from_shape_vec(rows: usize, cols: usize, flat: Vec<Double>) -> (table: Option<RealTable>)
    ensures
        table.is_some() == (addressable(rows as nat, cols as nat) && flat@.len() == rows * cols),
        table.is_some() ==> real_cells(table->0) == in_rows(flat@, rows as nat, cols as nat),
        table.is_some() ==> real_cols(table->0) == cols,
{
    match ndarray::Array2::from_shape_vec((rows, cols), flat) {
        Ok(cells) => Some(RealTable { cells }),
        Err(_) => None,
    }
}

/// `ndarray`'s `ArrayBase::len_of`: axis 0 counts the rows, axis 1 the columns, and every row has
/// a cell for each column.
#[verifier::external_body]
fn reals_len_of(table: &RealTable, axis: usize) -> (n: usize)
    requires
        axis < 2,
    ensures
        axis == 0 ==> n == real_cells(*table).len(),
        axis == 1 ==> n == real_cols(*table) && is_grid(real_cells(*table), n as nat),
{
    table.cells.len_of(ndarray::Axis(axis))
}

/// `ndarray`'s indexing of an `Array2` by row and column.
#[verifier::external_body]
fn reals_index(table: &RealTable, row: usize, col: usize) -> (cell: Double)
    requires
        row < real_cells(*table).len(),
        col < real_cols(*table),
    ensures
        cell == real_cells(*table)[row as int][col as int],
{
    table.cells[[row, col]]
}

impl View for RealTable {
    type V = Seq<Seq<Double>>;

    open spec fn view(&self) -> Seq<Seq<Double>> {
        real_cells(*self)
    }
}

impl RealTable {
    /// The number of columns.
    pub open spec fn cols(&self) -> nat {
        real_cols(*self)
    }

    /// A table with the values `flat` in rows of `cols` each, or none where they do not fill
    /// exactly `rows` rows.
    pub fn new(rows: usize, cols: usize, flat: Vec<Double>) -> (table: Option<RealTable>)
        ensures
            table is Some <==> addressable(rows as nat, cols as nat) && flat@.len() == rows * cols,
            table matches Some(t) ==> t@ == in_rows(flat@, rows as nat, cols as nat) && t.cols()
                == cols,
    {
        reals_from_shape_vec(rows, cols, flat)
    }

    /// The number of rows.
    pub fn num_rows(&self) -> (n: usize)
        ensures
            n == self@.len(),
    {
        reals_len_of(self, 0)
    }

    /// The number of columns.
    pub fn num_cols(&self) -> (n: usize)
        ensures
            n == self.cols(),
            is_grid(self@, n as nat),
    {
        reals_len_of(self, 1)
    }

    /// A cell.
    pub fn get(&self, row: usize, col: usize) -> (cell: Double)
        requires
            row < self@.len(),
            col < self.cols(),
        ensures
            cell == self@[row as int][col as int],
    {
        reals_index(self, row, col)
    }

    /// A copy of a row.
    pub fn row(&self, row: usize) -> (cells: Vec<Double>)
        requires
            row < self@.len(),
        ensures
            cells@ == self@[row as int],
            cells@.len() == self.cols(),
    {
        let cols = self.num_cols();
        let mut cells: Vec<Double> = Vec::with_capacity(cols);
        let mut col: usize = 0;
        assert(self@[row as int].len() == cols);
        while col < cols
            invariant
                row < self@.len(),
                col <= cols,
                cols == self.cols(),
                self@[row as int].len() == cols,
                cells@ =~= self@[row as int].take(col as int),
            decreases cols - col,
        {
            cells.push(self.get(row, col));
            col = col + 1;
        }
        cells
    }
}

} // verus!
