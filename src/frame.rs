use crate::cell::{Cell, CellModel};
use crate::column::{
    difference_to_last, expected_mean, timed_values, unshifted, Column, Returns,
    RollingMean,
};
use crate::datatypes::AnyType;
use crate::row::{other_than, CellRef, Row, RowModel};
use vstd::prelude::*;
use vstd::std_specs::convert::FromSpec;

verus! {

/// A table: its rows in order and its columns in order. Every column holds one cell per
/// row; each row holds, in column order, a reference to its cell in every column. Rows and
/// columns carry identities that are never given twice, so that a reference to a cell that
/// is gone resolves to nothing.
#[derive(Debug)]
pub struct DataFrame {
    rows: Vec<Row>,
    columns: Vec<Column>,
    row_ids: Vec<u64>,
    column_ids: Vec<u64>,
    next_id: u64,
}

/// The index of the first column named `name`, if any.
pub open spec fn first_named(columns: Seq<Column>, name: Seq<char>) -> Option<int>
    decreases columns.len(),
{
    if columns.len() == 0 {
        None
    } else {
        match first_named(columns.drop_last(), name) {
            Some(t) => Some(t),
            None => if columns.last().name_view()@ == name {
                Some(columns.len() - 1)
            } else {
                None
            },
        }
    }
}

/// The column that column `s` sends its returns to: the first one bearing the name its
/// returns setting gives, where returns are on.
pub open spec fn returns_target(columns: Seq<Column>, s: int) -> Option<int> {
    let setting = columns[s].returns_config();
    if setting.should_calculate && setting.column_name is Some {
        first_named(columns, setting.column_name->0@)
    } else {
        None
    }
}

/// The first column among the first `n` whose returns go to column `t`, where `t` does not
/// itself send returns.
pub open spec fn source_among(columns: Seq<Column>, t: int, n: int) -> Option<int>
    decreases n,
{
    if n <= 0 || columns[t].returns_config().should_calculate {
        None
    } else {
        match source_among(columns, t, n - 1) {
            Some(s) => Some(s),
            None => if returns_target(columns, n - 1) == Some(t) {
                Some(n - 1)
            } else {
                None
            },
        }
    }
}

/// The column whose returns fill column `t`, if any.
pub open spec fn source_of(columns: Seq<Column>, t: int) -> Option<int> {
    source_among(columns, t, columns.len() as int)
}

/// How many of the first `n` columns take a value of their own when a row is added (the
/// others are filled with returns).
pub open spec fn ordinal(columns: Seq<Column>, n: int) -> nat
    decreases n,
{
    if n <= 0 {
        0
    } else if source_of(columns, n - 1) is Some {
        ordinal(columns, n - 1)
    } else {
        ordinal(columns, n - 1) + 1
    }
}

/// The value that column `j` receives when a row with `values` is added.
pub open spec fn added_value(columns: Seq<Column>, values: Seq<AnyType>, j: int) -> AnyType {
    match source_of(columns, j) {
        Some(s) => {
            let vs = columns[s].values().push(values[ordinal(columns, s) as int]);
            difference_to_last(vs, vs.len() - 1)
        },
        None => values[ordinal(columns, j) as int],
    }
}

/// `after` is `before` with one more cell, holding `value` in `row`, that carries the
/// rolling mean its position gives it.
pub open spec fn grew_by(before: Column, after: Column, value: AnyType, row: Row) -> bool {
    &&& after.wf()
    &&& after.cells_view().len() == before.cells_view().len() + 1
    &&& after.cells_view().drop_last() == before.cells_view()
    &&& after.cells_view().last()@ == (CellModel {
        value,
        row: row@.index,
        timestamp: row@.timestamp,
        column_name: before.name_view()@,
        rolling_mean: expected_mean(
            before.rolling_mean_config(),
            after.values(),
            before.cells_view().len() as int,
        ),
    })
    &&& after.name_view() == before.name_view()
    &&& after.rolling_mean_config() == before.rolling_mean_config()
    &&& after.returns_config() == before.returns_config()
}

proof fn lemma_source_among(columns: Seq<Column>, t: int, n: int)
    requires
        0 <= t < columns.len(),
        n <= columns.len(),
    ensures
        source_among(columns, t, n) is Some ==> {
            let s = source_among(columns, t, n)->0;
            &&& 0 <= s < n
            &&& returns_target(columns, s) == Some(t)
            &&& columns[s].returns_config().should_calculate
        },
    decreases n,
{
    if n > 0 && !columns[t].returns_config().should_calculate {
        lemma_source_among(columns, t, n - 1);
    }
}

proof fn lemma_source_among_stable(columns: Seq<Column>, t: int, n: int, m: int)
    requires
        n <= m,
        source_among(columns, t, n) is Some,
    ensures
        source_among(columns, t, m) == source_among(columns, t, n),
    decreases m - n,
{
    if n < m {
        lemma_source_among_stable(columns, t, n, m - 1);
    }
}

proof fn lemma_ordinal_grows(columns: Seq<Column>, j: int, m: int)
    requires
        0 <= j <= m,
    ensures
        ordinal(columns, j) <= ordinal(columns, m),
    decreases m - j,
{
    if j < m {
        lemma_ordinal_grows(columns, j, m - 1);
    }
}

/// Taking out every copy of `x` from `s`, where `x` stands only at `j` (or nowhere, for
/// `j == s.len()`), removes position `j`.
proof fn lemma_filter_out_one(s: Seq<CellRef>, x: CellRef, j: int)
    requires
        0 <= j <= s.len(),
        j < s.len() ==> s[j] == x,
        forall|k: int| 0 <= k < s.len() && k != j ==> s[k] != x,
    ensures
        s.filter(other_than(x)) == (if j < s.len() {
            s.remove(j)
        } else {
            s
        }),
    decreases s.len(),
{
    reveal(Seq::filter);
    if s.len() > 0 {
        let t = s.drop_last();
        if j >= s.len() - 1 {
            lemma_filter_out_one(t, x, t.len() as int);
            if j == s.len() - 1 {
                assert(s.remove(j) =~= t);
            } else {
                assert(t.push(s.last()) =~= s);
            }
        } else {
            lemma_filter_out_one(t, x, j);
            assert(t.remove(j).push(s.last()) =~= s.remove(j));
        }
    }
}

proof fn lemma_first_named_prefix(columns: Seq<Column>, name: Seq<char>, n: int)
    requires
        0 < n <= columns.len(),
        first_named(columns.subrange(0, n - 1), name) is None,
        columns[n - 1].name_view()@ == name,
    ensures
        first_named(columns, name) == Some(n - 1),
    decreases columns.len() - n,
{
    if n < columns.len() {
        assert(columns.drop_last().subrange(0, n - 1) =~= columns.subrange(0, n - 1));
        lemma_first_named_prefix(columns.drop_last(), name, n);
    } else {
        assert(columns.drop_last() =~= columns.subrange(0, n - 1));
    }
}

proof fn lemma_first_named(columns: Seq<Column>, name: Seq<char>)
    ensures
        first_named(columns, name) is Some ==> {
            let t = first_named(columns, name)->0;
            0 <= t < columns.len() && columns[t].name_view()@ == name
        },
    decreases columns.len(),
{
    if columns.len() > 0 {
        lemma_first_named(columns.drop_last(), name);
    }
}

impl DataFrame {
    pub closed spec fn rows_view(&self) -> Seq<Row> {
        self.rows@
    }

    pub closed spec fn columns_view(&self) -> Seq<Column> {
        self.columns@
    }

    pub closed spec fn row_ids_view(&self) -> Seq<u64> {
        self.row_ids@
    }

    pub closed spec fn column_ids_view(&self) -> Seq<u64> {
        self.column_ids@
    }

    pub closed spec fn next_id_view(&self) -> u64 {
        self.next_id
    }

    /// The reference that row `i` holds for its cell in column `j`.
    pub open spec fn ref_of(&self, i: int, j: int) -> CellRef {
        CellRef { row_id: self.row_ids_view()[i], column_id: self.column_ids_view()[j] }
    }

    pub open spec fn wf(&self) -> bool {
        let rows = self.rows_view();
        let columns = self.columns_view();
        &&& self.row_ids_view().len() == rows.len()
        &&& self.column_ids_view().len() == columns.len()
        &&& forall|i: int| 0 <= i < rows.len() ==> (#[trigger] rows[i])@.index == i
        &&& forall|j: int|
            0 <= j < columns.len() ==> (#[trigger] columns[j]).wf() && columns[j].cells_view().len()
                == rows.len()
        &&& forall|i: int, j: int|
            0 <= i < rows.len() && 0 <= j < columns.len() ==> (#[trigger] columns[j].cells_view()[i])@.row
                == i && columns[j].cells_view()[i]@.timestamp == rows[i]@.timestamp
        &&& forall|i: int| 0 <= i < rows.len() ==> (#[trigger] rows[i])@.cells.len() == columns.len()
        &&& forall|i: int, j: int|
            0 <= i < rows.len() && 0 <= j < columns.len() ==> #[trigger] rows[i]@.cells[j]
                == self.ref_of(i, j)
        &&& forall|i: int, k: int|
            0 <= i < k < rows.len() ==> self.row_ids_view()[i] != self.row_ids_view()[k]
        &&& forall|j: int, k: int|
            0 <= j < k < columns.len() ==> self.column_ids_view()[j] != self.column_ids_view()[k]
        &&& forall|i: int| 0 <= i < rows.len() ==> #[trigger] self.row_ids_view()[i] < self.next_id_view()
        &&& forall|j: int|
            0 <= j < columns.len() ==> #[trigger] self.column_ids_view()[j] < self.next_id_view()
    }

    /// Whether the table can still give a new row or column an identity.
    pub open spec fn has_identity_left(&self) -> bool {
        self.next_id_view() < u64::MAX
    }

    /// A table with one empty column per name, with rolling means and returns off.
    pub fn new(column_names: Vec<&'static str>) -> (r: DataFrame)
        ensures
            r.wf(),
            r.rows_view().len() == 0,
            r.columns_view().len() == column_names@.len(),
            forall|j: int|
                0 <= j < column_names@.len() ==> (#[trigger] r.columns_view()[j]).name_view()
                    == column_names@[j] && r.columns_view()[j].cells_view().len() == 0
                    && r.columns_view()[j].rolling_mean_config() == (RollingMean {
                    should_calculate: false,
                    mean_over: 0,
                }) && r.columns_view()[j].returns_config() == (Returns {
                    should_calculate: false,
                    column_name: None,
                }),
            r.next_id_view() == column_names@.len(),
    {
        let mut columns: Vec<Column> = Vec::new();
        let mut column_ids: Vec<u64> = Vec::new();
        let mut j: usize = 0;
        while j < column_names.len()
            invariant
                j <= column_names@.len(),
                columns@.len() == j,
                column_ids@.len() == j,
                forall|k: int| 0 <= k < j ==> #[trigger] column_ids@[k] == k,
                forall|k: int|
                    0 <= k < j ==> (#[trigger] columns@[k]).name_view() == column_names@[k]
                        && columns@[k].wf() && columns@[k].cells_view().len() == 0
                        && columns@[k].rolling_mean_config() == (RollingMean {
                        should_calculate: false,
                        mean_over: 0,
                    }) && columns@[k].returns_config() == (Returns {
                        should_calculate: false,
                        column_name: None,
                    }),
            decreases column_names@.len() - j,
        {
            let column = Column::new(
                column_names[j],
                RollingMean::new(false, None),
                Returns::new(false, None),
            );
            columns.push(column);
            column_ids.push(j as u64);
            j = j + 1;
        }
        DataFrame {
            rows: Vec::new(),
            columns,
            row_ids: Vec::new(),
            column_ids,
            next_id: j as u64,
        }
    }

    pub fn get_rows(&self) -> (r: &Vec<Row>)
        ensures
            r@ == self.rows_view(),
    {
        &self.rows
    }

    pub fn get_columns(&self) -> (r: &Vec<Column>)
        ensures
            r@ == self.columns_view(),
    {
        &self.columns
    }

    /// The cell that `cell_ref` names, or `None` where its row or its column is gone.
    pub fn get_cell(&self, cell_ref: &CellRef) -> (r: Option<Cell>)
        requires
            self.wf(),
        ensures
            r is None <==> !exists|i: int, j: int|
                0 <= i < self.rows_view().len() && 0 <= j < self.columns_view().len()
                    && #[trigger] self.ref_of(i, j) == *cell_ref,
            forall|i: int, j: int|
                0 <= i < self.rows_view().len() && 0 <= j < self.columns_view().len()
                    && #[trigger] self.ref_of(i, j) == *cell_ref ==> r == Some(
                    self.columns_view()[j].cells_view()[i],
                ),
    {
        let mut i: usize = 0;
        while i < self.row_ids.len()
            invariant
                self.wf(),
                i <= self.row_ids@.len(),
                forall|k: int| 0 <= k < i ==> self.row_ids@[k] != cell_ref.row_id,
            decreases self.row_ids@.len() - i,
        {
            if self.row_ids[i] == cell_ref.row_id {
                let mut j: usize = 0;
                while j < self.column_ids.len()
                    invariant
                        self.wf(),
                        i < self.row_ids@.len(),
                        self.row_ids@[i as int] == cell_ref.row_id,
                        j <= self.column_ids@.len(),
                        forall|k: int| 0 <= k < j ==> self.column_ids@[k] != cell_ref.column_id,
                    decreases self.column_ids@.len() - j,
                {
                    if self.column_ids[j] == cell_ref.column_id {
                        let c = self.columns[j].get_cells()[i];
                        proof {
                            assert(self.ref_of(i as int, j as int) == *cell_ref);
                        }
                        return Some(c);
                    }
                    j = j + 1;
                }
                return None;
            }
            i = i + 1;
        }
        None
    }
}


impl DataFrame {
    /// Adds a row at the end. Each column that no other column feeds with returns takes
    /// the next of `cell_values`, in column order; then each column fed with returns takes
    /// its source's difference to the row before. Returns the new row's index.
    pub fn add_row(&mut self, cell_values: Vec<AnyType>) -> (r: usize)
        requires
            old(self).wf(),
            old(self).has_identity_left(),
            cell_values@.len() == ordinal(old(self).columns_view(), old(self).columns_view().len() as int),
        ensures
            final(self).wf(),
            r == old(self).rows_view().len(),
            final(self).rows_view().len() == r + 1,
            final(self).rows_view().drop_last() == old(self).rows_view(),
            final(self).columns_view().len() == old(self).columns_view().len(),
            forall|j: int|
                0 <= j < old(self).columns_view().len() ==> grew_by(
                    old(self).columns_view()[j],
                    #[trigger] final(self).columns_view()[j],
                    added_value(old(self).columns_view(), cell_values@, j),
                    final(self).rows_view()[r as int],
                ),
            final(self).next_id_view() == old(self).next_id_view() + 1,
    {
        let ghost old_columns = self.columns@;
        let ghost old_rows = self.rows@;
        let ghost old_row_ids = self.row_ids@;
        let ghost old_column_ids = self.column_ids@;
        let n = self.rows.len();
        let nc = self.columns.len();
        let id = self.next_id;
        let mut row = Row::new(n);
        let mut sources: Vec<Option<usize>> = Vec::new();
        let mut j: usize = 0;
        while j < nc
            invariant
                self.rows@ == old_rows,
                self.row_ids@ == old_row_ids,
                self.column_ids@ == old_column_ids,
                self.next_id == id,
                self.columns@ == old_columns,
                nc == old_columns.len(),
                j <= nc,
                sources@.len() == j,
                forall|k: int|
                    0 <= k < j ==> (#[trigger] sources@[k] is Some <==> source_of(old_columns, k) is Some)
                        && (sources@[k] is Some ==> sources@[k]->0 as int == source_of(old_columns, k)->0),
            decreases nc - j,
        {
            let source = self.source_of_exec(j);
            sources.push(source);
            j = j + 1;
        }
        let mut next: usize = 0;
        j = 0;
        while j < nc
            invariant
                self.rows@ == old_rows,
                self.row_ids@ == old_row_ids,
                self.column_ids@ == old_column_ids,
                self.next_id == id,
                self.columns@.len() == nc,
                nc == old_columns.len(),
                j <= nc,
                sources@.len() == nc,
                forall|k: int|
                    0 <= k < nc ==> (#[trigger] sources@[k] is Some <==> source_of(old_columns, k) is Some)
                        && (sources@[k] is Some ==> sources@[k]->0 as int == source_of(old_columns, k)->0),
                next == ordinal(old_columns, j as int),
                cell_values@.len() == ordinal(old_columns, nc as int),
                row@.index == n,
                forall|k: int| 0 <= k < nc ==> (#[trigger] old_columns[k]).wf() && old_columns[k].cells_view().len() == n,
                forall|k: int|
                    0 <= k < j && sources@[k] is None ==> grew_by(
                        old_columns[k],
                        #[trigger] self.columns@[k],
                        added_value(old_columns, cell_values@, k),
                        row,
                    ),
                forall|k: int| 0 <= k < j && sources@[k] is Some ==> #[trigger] self.columns@[k] == old_columns[k],
                forall|k: int| j <= k < nc ==> #[trigger] self.columns@[k] == old_columns[k],
            decreases nc - j,
        {
            if sources[j].is_none() {
                proof {
                    lemma_ordinal_grows(old_columns, j as int + 1, nc as int);
                    assert(source_of(old_columns, j as int) is None);
                    assert(ordinal(old_columns, j as int + 1) == next + 1);
                }
                let cell = Cell::new(cell_values[next], &row, self.columns[j].get_name());
                self.columns[j].add_cell(cell);
                next = next + 1;
            }
            j = j + 1;
        }
        j = 0;
        while j < nc
            invariant
                self.rows@ == old_rows,
                self.row_ids@ == old_row_ids,
                self.column_ids@ == old_column_ids,
                self.next_id == id,
                self.columns@.len() == nc,
                nc == old_columns.len(),
                j <= nc,
                sources@.len() == nc,
                forall|k: int|
                    0 <= k < nc ==> (#[trigger] sources@[k] is Some <==> source_of(old_columns, k) is Some)
                        && (sources@[k] is Some ==> sources@[k]->0 as int == source_of(old_columns, k)->0),
                row@.index == n,
                forall|k: int| 0 <= k < nc ==> (#[trigger] old_columns[k]).wf() && old_columns[k].cells_view().len() == n,
                forall|k: int|
                    0 <= k < nc && (sources@[k] is None || k < j) ==> grew_by(
                        old_columns[k],
                        #[trigger] self.columns@[k],
                        added_value(old_columns, cell_values@, k),
                        row,
                    ),
                forall|k: int| j <= k < nc && sources@[k] is Some ==> #[trigger] self.columns@[k] == old_columns[k],
            decreases nc - j,
        {
            if let Some(s) = sources[j] {
                proof {
                    lemma_source_among(old_columns, j as int, nc as int);
                    let sc = s as int;
                    assert(source_of(old_columns, sc) is None);
                    assert(sources@[sc] is None);
                    assert(grew_by(old_columns[sc], self.columns@[sc], added_value(old_columns, cell_values@, sc), row));
                    let vs = old_columns[sc].values().push(cell_values@[ordinal(old_columns, sc) as int]);
                    assert(self.columns@[sc].values() =~= vs) by {
                        let after = self.columns@[sc].cells_view();
                        assert(after =~= after.drop_last().push(after.last()));
                    }
                }
                let value = self.columns[s].get_difference_to_last(n);
                let cell = Cell::new(value, &row, self.columns[j].get_name());
                self.columns[j].add_cell(cell);
            }
            j = j + 1;
        }
        let ghost grown = self.columns@;
        let ghost row0 = row;
        j = 0;
        while j < nc
            invariant
                self.rows@ == old_rows,
                self.row_ids@ == old_row_ids,
                self.column_ids@ == old_column_ids,
                self.next_id == id,
                self.columns@ == grown,
                j <= nc == self.column_ids@.len(),
                row@.index == n,
                row@.index == row0@.index,
                row@.timestamp == row0@.timestamp,
                forall|k: int|
                    0 <= k < nc ==> grew_by(
                        old_columns[k],
                        #[trigger] self.columns@[k],
                        added_value(old_columns, cell_values@, k),
                        row0,
                    ),
                row@.cells.len() == j,
                forall|k: int| 0 <= k < j ==> #[trigger] row@.cells[k] == (CellRef { row_id: id, column_id: self.column_ids@[k] }),
            decreases nc - j,
        {
            row.add_cell(CellRef { row_id: id, column_id: self.column_ids[j] });
            j = j + 1;
        }
        self.rows.push(row);
        self.row_ids.push(id);
        self.next_id = id + 1;
        proof {
            assert forall|k: int| 0 <= k < nc implies grew_by(
                old_columns[k],
                #[trigger] self.columns@[k],
                added_value(old_columns, cell_values@, k),
                row,
            ) by {
            }
            assert(self.rows@[n as int] == row);
            assert forall|i: int, k: int|
                0 <= i < n + 1 && 0 <= k < nc implies (#[trigger] self.columns@[k].cells_view()[i])@.row == i
                && self.columns@[k].cells_view()[i]@.timestamp == self.rows@[i]@.timestamp by {
                assert(grew_by(old_columns[k], self.columns@[k], added_value(old_columns, cell_values@, k), row));
                if i < n {
                    assert(self.columns@[k].cells_view()[i] == self.columns@[k].cells_view().drop_last()[i]);
                    assert(self.rows@[i] == old_rows[i]);
                }
            }
            assert forall|i: int, k: int|
                0 <= i < n + 1 && 0 <= k < nc implies #[trigger] self.rows@[i]@.cells[k] == self.ref_of(i, k) by {
                if i < n {
                    assert(self.rows@[i] == old_rows[i]);
                }
            }
        }
        n
    }

    /// Removes the row at `row_index`: the rows after it move up one position, and every
    /// column drops its cell in that row (recomputing the rolling means it affects).
    pub fn drop_row(&mut self, row_index: usize)
        requires
            old(self).wf(),
            row_index < old(self).rows_view().len(),
        ensures
            final(self).wf(),
            final(self).rows_view().len() == old(self).rows_view().len() - 1,
            forall|i: int|
                0 <= i < final(self).rows_view().len() ==> (#[trigger] final(self).rows_view()[i])@
                    == (RowModel {
                    index: i as usize,
                    ..old(self).rows_view()[unshifted(i, row_index as int)]@
                }),
            final(self).columns_view().len() == old(self).columns_view().len(),
            forall|j: int|
                0 <= j < final(self).columns_view().len() ==> {
                    let before = old(self).columns_view()[j];
                    let after = #[trigger] final(self).columns_view()[j];
                    &&& after.values() == before.values().remove(row_index as int)
                    &&& after.name_view() == before.name_view()
                    &&& after.rolling_mean_config() == before.rolling_mean_config()
                    &&& after.returns_config() == before.returns_config()
                },
            final(self).next_id_view() == old(self).next_id_view(),
    {
        let p = row_index;
        let ghost old_rows = self.rows@;
        let ghost old_columns = self.columns@;
        let ghost old_row_ids = self.row_ids@;
        let ghost column_ids = self.column_ids@;
        let ghost next_id = self.next_id;
        self.rows.remove(p);
        self.row_ids.remove(p);
        let n = self.rows.len();
        let mut k: usize = p;
        while k < n
            invariant
                p <= k <= n == self.rows@.len(),
                n == old_rows.len() - 1,
                self.columns@ == old_columns,
                self.row_ids@ == old_row_ids.remove(p as int),
                self.column_ids@ == column_ids,
                self.next_id == next_id,
                forall|i: int| 0 <= i < p ==> #[trigger] self.rows@[i] == old_rows[i],
                forall|i: int|
                    p <= i < k ==> (#[trigger] self.rows@[i])@ == (RowModel {
                        index: i as usize,
                        ..old_rows[i + 1]@
                    }),
                forall|i: int| k <= i < n ==> #[trigger] self.rows@[i] == old_rows[i + 1],
            decreases n - k,
        {
            self.rows[k].update_index(k);
            k = k + 1;
        }
        let nc = self.columns.len();
        let mut j: usize = 0;
        while j < nc
            invariant
                j <= nc == old_columns.len(),
                self.columns@.len() == nc,
                p < old_rows.len(),
                forall|c: int| 0 <= c < nc ==> (#[trigger] old_columns[c]).wf() && old_columns[c].cells_view().len() == old_rows.len(),
                forall|i: int, c: int|
                    0 <= i < old_rows.len() && 0 <= c < nc ==> (#[trigger] old_columns[c].cells_view()[i])@.row == i
                        && old_columns[c].cells_view()[i]@.timestamp == old_rows[i]@.timestamp,
                forall|c: int|
                    0 <= c < j ==> {
                        let before = old_columns[c];
                        let after = #[trigger] self.columns@[c];
                        &&& after.wf()
                        &&& after.values() == before.values().remove(p as int)
                        &&& after.cells_view().len() == before.cells_view().len() - 1
                        &&& forall|i: int| 0 <= i < after.cells_view().len() ==> (#[trigger] after.cells_view()[i])@.row == i
                            && after.cells_view()[i]@.timestamp == old_rows[unshifted(i, p as int)]@.timestamp
                        &&& after.name_view() == before.name_view()
                        &&& after.rolling_mean_config() == before.rolling_mean_config()
                        &&& after.returns_config() == before.returns_config()
                    },
                forall|c: int| j <= c < nc ==> #[trigger] self.columns@[c] == old_columns[c],
                self.rows@.len() == n,
                forall|i: int|
                    0 <= i < n ==> (#[trigger] self.rows@[i])@ == (RowModel {
                        index: i as usize,
                        ..old_rows[unshifted(i, p as int)]@
                    }),
                self.row_ids@ == old_row_ids.remove(p as int),
                self.column_ids@ == column_ids,
                self.next_id == next_id,
            decreases nc - j,
        {
            let cell = self.columns[j].get_cells()[p];
            proof {
                assert(old_columns[j as int].cells_view()[p as int]@.row == p);
            }
            self.columns[j].drop_cell(cell);
            proof {
                let after = self.columns@[j as int];
                assert forall|i: int| 0 <= i < after.cells_view().len() implies (#[trigger] after.cells_view()[i])@.row == i
                    && after.cells_view()[i]@.timestamp == old_rows[unshifted(i, p as int)]@.timestamp by {
                    if i < p {
                        assert(old_columns[j as int].cells_view()[i]@.row == i);
                        assert(old_columns[j as int].cells_view()[i]@.timestamp == old_rows[i]@.timestamp);
                    } else {
                        assert(old_columns[j as int].cells_view()[i + 1]@.timestamp == old_rows[i + 1]@.timestamp);
                    }
                }
            }
            j = j + 1;
        }
        proof {
            assert forall|i: int| 0 <= i < n implies #[trigger] self.row_ids@[i] == old_row_ids[unshifted(i, p as int)] by {
            }
            assert forall|i: int, c: int|
                0 <= i < n && 0 <= c < nc implies #[trigger] self.rows@[i]@.cells[c] == self.ref_of(i, c) by {
                assert(self.rows@[i]@.cells == old_rows[unshifted(i, p as int)]@.cells);
            }
            assert forall|i: int, c: int| 0 <= i < c < n implies self.row_ids@[i] != self.row_ids@[c] by {
                assert(self.row_ids@[i] == old_row_ids[unshifted(i, p as int)]);
                assert(self.row_ids@[c] == old_row_ids[unshifted(c, p as int)]);
            }
            assert forall|i: int| 0 <= i < n implies #[trigger] self.row_ids@[i] < self.next_id by {
                assert(self.row_ids@[i] == old_row_ids[unshifted(i, p as int)]);
            }
            assert forall|i: int, c: int|
                0 <= i < n && 0 <= c < nc implies (#[trigger] self.columns@[c].cells_view()[i])@.row == i by {
            }
        }
    }

    /// Removes the column at `column_index`; every row forgets its reference to the cell of
    /// that column.
    pub fn drop_column(&mut self, column_index: usize)
        requires
            old(self).wf(),
            column_index < old(self).columns_view().len(),
        ensures
            final(self).wf(),
            final(self).columns_view() == old(self).columns_view().remove(column_index as int),
            final(self).rows_view().len() == old(self).rows_view().len(),
            forall|i: int|
                0 <= i < final(self).rows_view().len() ==> (#[trigger] final(self).rows_view()[i])@
                    == (RowModel {
                    cells: old(self).rows_view()[i]@.cells.remove(column_index as int),
                    ..old(self).rows_view()[i]@
                }),
            final(self).next_id_view() == old(self).next_id_view(),
    {
        let ghost old_rows = self.rows@;
        let ghost old_column_ids = self.column_ids@;
        let ghost old_columns = self.columns@;
        let ghost row_ids = self.row_ids@;
        let ghost next_id = self.next_id;
        let column_id = self.column_ids[column_index];
        self.columns.remove(column_index);
        self.column_ids.remove(column_index);
        let n = self.rows.len();
        let mut i: usize = 0;
        while i < n
            invariant
                i <= n == self.rows@.len() == old_rows.len(),
                self.row_ids@.len() == n,
                self.row_ids@ == row_ids,
                self.next_id == next_id,
                column_index < old_column_ids.len(),
                column_id == old_column_ids[column_index as int],
                self.columns@ == old_columns.remove(column_index as int),
                self.column_ids@ == old_column_ids.remove(column_index as int),
                forall|a: int, b: int|
                    0 <= a < b < old_column_ids.len() ==> old_column_ids[a] != old_column_ids[b],
                forall|a: int| 0 <= a < n ==> (#[trigger] old_rows[a])@.cells.len() == old_column_ids.len(),
                forall|a: int, c: int|
                    0 <= a < n && 0 <= c < old_column_ids.len() ==> #[trigger] old_rows[a]@.cells[c]
                        == (CellRef { row_id: self.row_ids@[a], column_id: old_column_ids[c] }),
                forall|a: int|
                    0 <= a < i ==> (#[trigger] self.rows@[a])@ == (RowModel {
                        cells: old_rows[a]@.cells.remove(column_index as int),
                        ..old_rows[a]@
                    }),
                forall|a: int| i <= a < n ==> #[trigger] self.rows@[a] == old_rows[a],
            decreases n - i,
        {
            let cell_ref = CellRef { row_id: self.row_ids[i], column_id };
            proof {
                let refs = old_rows[i as int]@.cells;
                assert forall|c: int| 0 <= c < refs.len() && c != column_index implies refs[c] != cell_ref by {
                    if c < column_index {
                        assert(old_column_ids[c] != old_column_ids[column_index as int]);
                    } else {
                        assert(old_column_ids[column_index as int] != old_column_ids[c]);
                    }
                }
                lemma_filter_out_one(refs, cell_ref, column_index as int);
            }
            self.rows[i].drop_cell(&cell_ref);
            i = i + 1;
        }
        proof {
            assert forall|a: int, c: int|
                0 <= a < n && 0 <= c < self.columns@.len() implies #[trigger] self.rows@[a]@.cells[c] == self.ref_of(a, c) by {
                assert(self.column_ids@[c] == old_column_ids[unshifted(c, column_index as int)]);
            }
            assert forall|a: int, b: int| 0 <= a < b < self.columns@.len() implies self.column_ids@[a] != self.column_ids@[b] by {
                assert(self.column_ids@[a] == old_column_ids[unshifted(a, column_index as int)]);
                assert(self.column_ids@[b] == old_column_ids[unshifted(b, column_index as int)]);
            }
            assert forall|c: int| 0 <= c < self.columns@.len() implies #[trigger] self.column_ids@[c] < self.next_id by {
                assert(self.column_ids@[c] == old_column_ids[unshifted(c, column_index as int)]);
            }
            assert forall|c: int| 0 <= c < self.columns@.len() implies (#[trigger] self.columns@[c]).wf() && self.columns@[c].cells_view().len() == n by {
                assert(self.columns@[c] == old_columns[unshifted(c, column_index as int)]);
            }
            assert forall|a: int, c: int|
                0 <= a < n && 0 <= c < self.columns@.len() implies (#[trigger] self.columns@[c].cells_view()[a])@.row == a by {
                assert(self.columns@[c] == old_columns[unshifted(c, column_index as int)]);
            }
        }
    }

    /// Appends `column`, whose cells stand one per row in row order; every row takes a
    /// reference to its cell in it.
    pub fn add_column(&mut self, column: Column)
        requires
            old(self).wf(),
            old(self).has_identity_left(),
            column.wf(),
            column.cells_view().len() == old(self).rows_view().len(),
            forall|i: int|
                0 <= i < column.cells_view().len() ==> (#[trigger] column.cells_view()[i])@.row == i
                    && column.cells_view()[i]@.timestamp == old(self).rows_view()[i]@.timestamp,
        ensures
            final(self).wf(),
            final(self).columns_view() == old(self).columns_view().push(column),
            final(self).rows_view().len() == old(self).rows_view().len(),
            forall|i: int|
                0 <= i < final(self).rows_view().len() ==> (#[trigger] final(self).rows_view()[i])@.index
                    == old(self).rows_view()[i]@.index && final(self).rows_view()[i]@.timestamp
                    == old(self).rows_view()[i]@.timestamp && final(self).rows_view()[i]@.cells.drop_last()
                    == old(self).rows_view()[i]@.cells,
            final(self).next_id_view() == old(self).next_id_view() + 1,
    {
        let ghost old_rows = self.rows@;
        let ghost old_columns = self.columns@;
        let ghost row_ids = self.row_ids@;
        let ghost column_ids = self.column_ids@;
        let id = self.next_id;
        let n = self.rows.len();
        let mut i: usize = 0;
        while i < n
            invariant
                i <= n == self.rows@.len() == old_rows.len(),
                self.row_ids@ == row_ids,
                self.column_ids@ == column_ids,
                self.columns@ == old_columns,
                self.next_id == id,
                row_ids.len() == n,
                forall|a: int|
                    0 <= a < i ==> (#[trigger] self.rows@[a])@ == (RowModel {
                        cells: old_rows[a]@.cells.push(CellRef { row_id: row_ids[a], column_id: id }),
                        ..old_rows[a]@
                    }),
                forall|a: int| i <= a < n ==> #[trigger] self.rows@[a] == old_rows[a],
            decreases n - i,
        {
            let cell_ref = CellRef { row_id: self.row_ids[i], column_id: id };
            self.rows[i].add_cell(cell_ref);
            i = i + 1;
        }
        self.columns.push(column);
        self.column_ids.push(id);
        self.next_id = id + 1;
        proof {
            let nc = self.columns@.len();
            assert forall|a: int, c: int|
                0 <= a < n && 0 <= c < nc implies #[trigger] self.rows@[a]@.cells[c] == self.ref_of(a, c) by {
                if c < nc - 1 {
                    assert(old_rows[a]@.cells[c] == self.ref_of(a, c));
                }
            }
            assert forall|a: int, c: int|
                0 <= a < n && 0 <= c < nc implies (#[trigger] self.columns@[c].cells_view()[a])@.row == a
                && self.columns@[c].cells_view()[a]@.timestamp == self.rows@[a]@.timestamp by {
                if c < nc - 1 {
                    assert(self.columns@[c] == old_columns[c]);
                }
            }
            assert forall|a: int|
                0 <= a < n implies (#[trigger] self.rows@[a])@.cells.drop_last() == old_rows[a]@.cells by {
                assert(self.rows@[a]@.cells.drop_last() =~= old_rows[a]@.cells);
            }
        }
    }

    /// Builds a column named `column_name` out of `cell_values`, one per row in row order,
    /// with the rolling-mean setting `rolling_mean` and returns off, and appends it.
    pub fn add_column_from_values(
        &mut self,
        column_name: &'static str,
        cell_values: Vec<AnyType>,
        rolling_mean: RollingMean,
    )
        requires
            old(self).wf(),
            old(self).has_identity_left(),
            cell_values@.len() == old(self).rows_view().len(),
        ensures
            final(self).wf(),
            final(self).columns_view().drop_last() == old(self).columns_view(),
            final(self).columns_view().len() == old(self).columns_view().len() + 1,
            final(self).columns_view().last().values() == cell_values@,
            final(self).columns_view().last().name_view() == column_name,
            final(self).columns_view().last().rolling_mean_config() == rolling_mean,
            final(self).columns_view().last().returns_config() == (Returns {
                should_calculate: false,
                column_name: None,
            }),
            final(self).rows_view().len() == old(self).rows_view().len(),
            forall|i: int|
                0 <= i < final(self).rows_view().len() ==> (#[trigger] final(self).rows_view()[i])@.index
                    == old(self).rows_view()[i]@.index && final(self).rows_view()[i]@.timestamp
                    == old(self).rows_view()[i]@.timestamp && final(self).rows_view()[i]@.cells.drop_last()
                    == old(self).rows_view()[i]@.cells,
            final(self).next_id_view() == old(self).next_id_view() + 1,
    {
        let mut column = Column::new(column_name, rolling_mean, Returns::new(false, None));
        let n = self.rows.len();
        let mut i: usize = 0;
        while i < n
            invariant
                self.wf(),
                i <= n == self.rows@.len(),
                cell_values@.len() == n,
                column.wf(),
                column.cells_view().len() == i,
                column.values() == cell_values@.subrange(0, i as int),
                forall|a: int|
                    0 <= a < i ==> (#[trigger] column.cells_view()[a])@.row == a
                        && column.cells_view()[a]@.timestamp == self.rows@[a]@.timestamp,
                column.name_view() == column_name,
                column.rolling_mean_config() == rolling_mean,
                column.returns_config() == (Returns { should_calculate: false, column_name: None }),
            decreases n - i,
        {
            let cell = Cell::new(cell_values[i], &self.rows[i], column_name);
            let ghost before = column;
            column.add_cell(cell);
            proof {
                assert(column.cells_view() =~= before.cells_view().push(column.cells_view().last()));
                assert(column.values() =~= cell_values@.subrange(0, i as int + 1));
                assert forall|a: int| 0 <= a < i + 1 implies (#[trigger] column.cells_view()[a])@.row == a
                    && column.cells_view()[a]@.timestamp == self.rows@[a]@.timestamp by {
                    if a < i {
                        assert(column.cells_view()[a] == before.cells_view()[a]);
                    }
                }
            }
            i = i + 1;
        }
        proof {
            assert(cell_values@.subrange(0, n as int) =~= cell_values@);
        }
        self.add_column(column);
    }

    /// Turns on returns for the first column named `column_name`, sending them to
    /// `new_column_name`, and builds that column out of the differences so far.
    pub fn create_returns_for_column(
        &mut self,
        column_name: &'static str,
        new_column_name: &'static str,
        rolling_mean: RollingMean,
    )
        requires
            old(self).wf(),
            old(self).has_identity_left(),
            first_named(old(self).columns_view(), column_name@) is Some,
        ensures
            final(self).wf(),
            ({
                let t = first_named(old(self).columns_view(), column_name@)->0;
                let before = old(self).columns_view()[t];
                let source = final(self).columns_view()[t];
                let added = final(self).columns_view().last();
                &&& final(self).columns_view().len() == old(self).columns_view().len() + 1
                &&& forall|j: int|
                    0 <= j < old(self).columns_view().len() && j != t ==> #[trigger] final(self).columns_view()[j]
                        == old(self).columns_view()[j]
                &&& source.cells_view() == before.cells_view()
                &&& source.name_view() == before.name_view()
                &&& source.rolling_mean_config() == before.rolling_mean_config()
                &&& source.returns_config() == (if before.returns_config().should_calculate {
                    before.returns_config()
                } else {
                    Returns { should_calculate: true, column_name: Some(new_column_name) }
                })
                &&& added.values().len() == before.values().len()
                &&& forall|i: int|
                    0 <= i < added.values().len() ==> #[trigger] added.values()[i]
                        == difference_to_last(before.values(), i)
                &&& added.name_view() == new_column_name
                &&& added.rolling_mean_config() == rolling_mean
            }),
            final(self).rows_view().len() == old(self).rows_view().len(),
            final(self).next_id_view() == old(self).next_id_view() + 1,
    {
        proof {
            lemma_first_named(self.columns@, column_name@);
        }
        let t = match self.first_named_exec(column_name) {
            Some(t) => t,
            None => {
                return;
            },
        };
        let ghost old_columns = self.columns@;
        let values = self.columns[t].update_returns(Returns::new(true, Some(new_column_name)));
        proof {
            assert forall|i: int, j: int|
                0 <= i < self.rows@.len() && 0 <= j < self.columns@.len() implies (#[trigger] self.columns@[j].cells_view()[i])@.row == i by {
                assert(self.columns@[j].cells_view() == old_columns[j].cells_view());
            }
            assert forall|j: int| 0 <= j < self.columns@.len() implies (#[trigger] self.columns@[j]).wf() && self.columns@[j].cells_view().len() == self.rows@.len() by {
                assert(self.columns@[j].cells_view() == old_columns[j].cells_view());
            }
        }
        match values {
            Some(differences) => {
                let ghost mid = self.columns@;
                self.add_column_from_values(new_column_name, differences, rolling_mean);
                proof {
                    assert(self.columns@.len() == mid.len() + 1);
                    assert forall|j: int| 0 <= j < mid.len() implies #[trigger] self.columns@[j] == mid[j] by {
                        assert(self.columns@.drop_last()[j] == mid[j]);
                    }
                    let added = self.columns@.last();
                    assert forall|i: int| 0 <= i < added.values().len() implies #[trigger] added.values()[i]
                        == difference_to_last(old_columns[t as int].values(), i) by {
                        assert(added.values()[i] == differences@[i]);
                    }
                }
            },
            None => {},
        }
    }

    /// Takes the rolling-mean setting `rolling_mean` for the first column named
    /// `column_name`, recomputing its rolling means.
    pub fn update_column_rolling_mean(&mut self, column_name: &'static str, rolling_mean: RollingMean)
        requires
            old(self).wf(),
            first_named(old(self).columns_view(), column_name@) is Some,
        ensures
            final(self).wf(),
            final(self).rows_view() == old(self).rows_view(),
            final(self).columns_view().len() == old(self).columns_view().len(),
            ({
                let t = first_named(old(self).columns_view(), column_name@)->0;
                let before = old(self).columns_view()[t];
                let after = final(self).columns_view()[t];
                &&& forall|j: int|
                    0 <= j < old(self).columns_view().len() && j != t ==> #[trigger] final(self).columns_view()[j]
                        == old(self).columns_view()[j]
                &&& after.values() == before.values()
                &&& after.name_view() == before.name_view()
                &&& after.returns_config() == before.returns_config()
                &&& after.rolling_mean_config() == rolling_mean
            }),
            final(self).next_id_view() == old(self).next_id_view(),
    {
        proof {
            lemma_first_named(self.columns@, column_name@);
        }
        let t = match self.first_named_exec(column_name) {
            Some(t) => t,
            None => {
                return;
            },
        };
        let ghost old_columns = self.columns@;
        self.columns[t].update_rolling_mean(rolling_mean);
        proof {
            let after = self.columns@[t as int];
            assert(after.values() =~= old_columns[t as int].values());
            assert forall|i: int, j: int|
                0 <= i < self.rows@.len() && 0 <= j < self.columns@.len() implies (#[trigger] self.columns@[j].cells_view()[i])@.row == i by {
                if j == t {
                    assert(old_columns[j].cells_view()[i]@.row == i);
                }
            }
        }
    }

    /// Removes the first column named `column_name`.
    pub fn drop_column_by_name(&mut self, column_name: &str)
        requires
            old(self).wf(),
            first_named(old(self).columns_view(), column_name@) is Some,
        ensures
            final(self).wf(),
            final(self).columns_view() == old(self).columns_view().remove(
                first_named(old(self).columns_view(), column_name@)->0,
            ),
            final(self).rows_view().len() == old(self).rows_view().len(),
            final(self).next_id_view() == old(self).next_id_view(),
    {
        proof {
            lemma_first_named(self.columns@, column_name@);
        }
        match self.first_named_exec(column_name) {
            Some(index) => self.drop_column(index),
            None => {},
        }
    }

    /// The values of the first column named `column_name` that convert to `T`, each with
    /// the time its row was made (seconds since the Unix epoch), in row order.
    pub fn get_column_values_with_unix_datetime<T>(&self, column_name: &'static str) -> (r: Vec<(i64, T)>) where
        Option<T>: From<AnyType>,

        requires
            first_named(self.columns_view(), column_name@) is Some,
            <Option<T> as FromSpec<AnyType>>::obeys_from_spec(),
        ensures
            r@ == timed_values::<T>(
                self.columns_view()[first_named(self.columns_view(), column_name@)->0].cells_view(),
            ),
    {
        proof {
            lemma_first_named(self.columns@, column_name@);
        }
        match self.first_named_exec(column_name) {
            Some(t) => self.columns[t].get_values_as_vec_with_unix_datetime::<T>(),
            None => Vec::new(),
        }
    }

    /// The index of the first column named `name`, if any.
    fn first_named_exec(&self, name: &str) -> (r: Option<usize>)
        ensures
            r is Some <==> first_named(self.columns@, name@) is Some,
            r is Some ==> r->0 as int == first_named(self.columns@, name@)->0,
    {
        let mut j: usize = 0;
        while j < self.columns.len()
            invariant
                j <= self.columns@.len(),
                first_named(self.columns@.subrange(0, j as int), name@) is None,
            decreases self.columns@.len() - j,
        {
            proof {
                assert(self.columns@.subrange(0, j as int + 1).drop_last() =~= self.columns@.subrange(
                    0,
                    j as int,
                ));
            }
            if crate::datatypes::same_text(self.columns[j].get_name(), name) {
                proof {
                    lemma_first_named_prefix(self.columns@, name@, j as int + 1);
                }
                return Some(j);
            }
            j = j + 1;
        }
        proof {
            assert(self.columns@.subrange(0, j as int) =~= self.columns@);
        }
        None
    }

    /// The column that column `s` sends its returns to, if any.
    fn returns_target_exec(&self, s: usize) -> (r: Option<usize>)
        requires
            s < self.columns@.len(),
        ensures
            r is Some <==> returns_target(self.columns@, s as int) is Some,
            r is Some ==> r->0 as int == returns_target(self.columns@, s as int)->0,
    {
        let setting = self.columns[s].get_returns();
        if setting.should_calculate {
            match setting.column_name {
                Some(name) => self.first_named_exec(name),
                None => None,
            }
        } else {
            None
        }
    }

    /// The column whose returns fill column `t`, if any.
    fn source_of_exec(&self, t: usize) -> (r: Option<usize>)
        requires
            t < self.columns@.len(),
        ensures
            r is Some <==> source_of(self.columns@, t as int) is Some,
            r is Some ==> r->0 as int == source_of(self.columns@, t as int)->0,
    {
        if self.columns[t].get_returns().should_calculate {
            return None;
        }
        let mut j: usize = 0;
        while j < self.columns.len()
            invariant
                t < self.columns@.len(),
                !self.columns@[t as int].returns_config().should_calculate,
                j <= self.columns@.len(),
                source_among(self.columns@, t as int, j as int) is None,
            decreases self.columns@.len() - j,
        {
            match self.returns_target_exec(j) {
                Some(target) => {
                    if target == t {
                        proof {
                            lemma_source_among_stable(self.columns@, t as int, j as int + 1, self.columns@.len() as int);
                        }
                        return Some(j);
                    }
                },
                None => {},
            }
            j = j + 1;
        }
        None
    }
}

} // verus!
