use vstd::prelude::*;

verus! {

/// A reference to a cell that does not keep it alive: the cell of one column in one row,
/// each named by the identity a table gave it.
#[derive(Clone, Copy, Debug, PartialEq, Eq, Structural)]
pub struct CellRef {
    pub row_id: u64,
    pub column_id: u64,
}

/// Keeps every reference but `x`.
pub open spec fn other_than(x: CellRef) -> spec_fn(CellRef) -> bool {
    |c: CellRef| c != x
}

/// The current time, in whole seconds since the Unix epoch.
///
/// Relies on chrono's `Utc::now`, read out through `DateTime::timestamp`. The clock may say
/// anything, so nothing is stated of the result; `Utc::now` panics where the system clock
/// reads before 1970.
#[verifier::external_body]
fn unix_now() -> i64 {
    chrono::Utc::now().timestamp()
}

/// A record of the table: its position, the references to its cells in column order, and
/// the time it was made.
#[derive(Debug)]
pub struct Row {
    pub index: usize,
    cells: Vec<CellRef>,
    timestamp: i64,
}

/// What a row holds, as the contracts see it.
pub ghost struct RowModel {
    pub index: usize,
    pub cells: Seq<CellRef>,
    pub timestamp: i64,
}

impl View for Row {
    type V = RowModel;

    closed spec fn view(&self) -> RowModel {
        RowModel { index: self.index, cells: self.cells@, timestamp: self.timestamp }
    }
}

impl Row {
    pub open spec fn cell_refs(&self) -> Seq<CellRef> {
        self@.cells
    }

    pub open spec fn created_at(&self) -> i64 {
        self@.timestamp
    }

    /// A row at position `index` that references no cell yet, stamped with the current time.
    pub fn new(index: usize) -> (r: Row)
        ensures
            r@.index == index,
            r.cell_refs() == Seq::<CellRef>::empty(),
    {
        Row { index, cells: Vec::new(), timestamp: unix_now() }
    }

    pub fn add_cell(&mut self, cell: CellRef)
        ensures
            final(self)@.index == old(self)@.index,
            final(self).created_at() == old(self).created_at(),
            final(self).cell_refs() == old(self).cell_refs().push(cell),
    {
        self.cells.push(cell);
    }

    /// Forgets every reference to `cell`.
    pub fn drop_cell(&mut self, cell: &CellRef)
        ensures
            final(self)@.index == old(self)@.index,
            final(self).created_at() == old(self).created_at(),
            final(self).cell_refs() == old(self).cell_refs().filter(other_than(*cell)),
    {
        let mut kept: Vec<CellRef> = Vec::new();
        let mut i: usize = 0;
        while i < self.cells.len()
            invariant
                i <= self.cells@.len(),
                kept@ == self.cells@.subrange(0, i as int).filter(other_than(*cell)),
            decreases self.cells@.len() - i,
        {
            let c = self.cells[i];
            proof {
                let s = self.cells@.subrange(0, i as int + 1);
                assert(s.drop_last() == self.cells@.subrange(0, i as int));
                assert(s.last() == c);
                reveal(Seq::filter);
            }
            if c != *cell {
                kept.push(c);
            }
            i = i + 1;
        }
        proof {
            assert(self.cells@.subrange(0, self.cells@.len() as int) == self.cells@);
        }
        self.cells = kept;
    }

    pub fn get_cells(&self) -> (r: &Vec<CellRef>)
        ensures
            r@ == self.cell_refs(),
    {
        &self.cells
    }

    /// The reference held for the column at `cell_index`.
    pub fn get_cell(&self, cell_index: usize) -> (r: CellRef)
        requires
            cell_index < self.cell_refs().len(),
        ensures
            r == self.cell_refs()[cell_index as int],
    {
        self.cells[cell_index]
    }

    /// The reference held for the last column, if any.
    pub fn get_last_cell(&self) -> (r: Option<CellRef>)
        ensures
            r == (if self.cell_refs().len() == 0 {
                None
            } else {
                Some(self.cell_refs().last())
            }),
    {
        if self.cells.len() == 0 {
            None
        } else {
            Some(self.cells[self.cells.len() - 1])
        }
    }

    pub fn update_index(&mut self, index: usize)
        ensures
            final(self)@.index == index,
            final(self).cell_refs() == old(self).cell_refs(),
            final(self).created_at() == old(self).created_at(),
    {
        self.index = index;
    }

    /// Seconds since the Unix epoch at which the row was made.
    pub fn get_timestamp(&self) -> (r: i64)
        ensures
            r == self.created_at(),
    {
        self.timestamp
    }

    pub fn get_index(&self) -> (r: usize)
        ensures
            r == self@.index,
    {
        self.index
    }
}

/// Rows are equal when they stand at the same position.
impl PartialEq for Row {
    fn eq(&self, other: &Row) -> (r: bool) {
        self.index == other.index
    }
}

impl vstd::std_specs::cmp::PartialEqSpecImpl for Row {
    open spec fn obeys_eq_spec() -> bool {
        true
    }

    open spec fn eq_spec(&self, other: &Row) -> bool {
        self@.index == other@.index
    }
}

impl Eq for Row {

}

} // verus!
