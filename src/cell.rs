use crate::datatypes::AnyType;
use crate::row::Row;
use vstd::prelude::*;

verus! {

/// What a cell holds, as the contracts see it.
pub ghost struct CellModel {
    pub value: AnyType,
    pub row: usize,
    pub timestamp: i64,
    pub column_name: Seq<char>,
    pub rolling_mean: Option<AnyType>,
}

/// One value of one column, bound to the row it belongs to by that row's index.
#[derive(Clone, Copy, Debug)]
pub struct Cell {
    value: AnyType,
    row: usize,
    timestamp: i64,
    column_name: &'static str,
    rolling_mean: Option<AnyType>,
}

impl View for Cell {
    type V = CellModel;

    closed spec fn view(&self) -> CellModel {
        CellModel {
            value: self.value,
            row: self.row,
            timestamp: self.timestamp,
            column_name: self.column_name@,
            rolling_mean: self.rolling_mean,
        }
    }
}

impl Cell {
    /// A cell holding `value` in `row` of the column `column_name`, with no rolling mean.
    pub fn new(value: AnyType, row: &Row, column_name: &'static str) -> (r: Cell)
        ensures
            r@ == (CellModel {
                value,
                row: row@.index,
                timestamp: row@.timestamp,
                column_name: column_name@,
                rolling_mean: None,
            }),
    {
        Cell {
            value,
            row: row.get_index(),
            timestamp: row.get_timestamp(),
            column_name,
            rolling_mean: None,
        }
    }

    /// The index of the row this cell belongs to.
    pub fn get_row(&self) -> (r: usize)
        ensures
            r == self@.row,
    {
        self.row
    }

    pub fn get_value(&self) -> (r: &AnyType)
        ensures
            *r == self@.value,
    {
        &self.value
    }

    /// The row this cell belongs to, by index, for a caller to keep.
    pub fn clone_row(&self) -> (r: usize)
        ensures
            r == self@.row,
    {
        self.row
    }

    /// When the cell's row was made, in seconds since the Unix epoch.
    pub fn get_timestamp(&self) -> (r: i64)
        ensures
            r == self@.timestamp,
    {
        self.timestamp
    }

    pub fn get_column_name(&self) -> (r: &'static str)
        ensures
            r@ == self@.column_name,
    {
        self.column_name
    }

    pub fn set_rolling_mean(&mut self, rolling_mean: Option<AnyType>)
        ensures
            final(self)@ == (CellModel { rolling_mean, ..old(self)@ }),
    {
        self.rolling_mean = rolling_mean;
    }

    pub fn get_rolling_mean(&self) -> (r: Option<AnyType>)
        ensures
            r == self@.rolling_mean,
    {
        self.rolling_mean
    }

    /// Moves the cell to the row at `row`, as when the rows before it are removed.
    pub fn set_row(&mut self, row: usize)
        ensures
            final(self)@ == (CellModel { row, ..old(self)@ }),
    {
        self.row = row;
    }
}

/// Two cells are the same when they hold equal values at the same row position.
impl PartialEq for Cell {
    fn eq(&self, other: &Cell) -> (r: bool) {
        self.value == other.value && self.row == other.row
    }
}

impl vstd::std_specs::cmp::PartialEqSpecImpl for Cell {
    open spec fn obeys_eq_spec() -> bool {
        true
    }

    open spec fn eq_spec(&self, other: &Cell) -> bool {
        self@.value.same_as(other@.value) && self@.row == other@.row
    }
}

impl Eq for Cell {

}

} // verus!
