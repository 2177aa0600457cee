use dataframe::cell::Cell;
use dataframe::datatypes::AnyType;
use dataframe::row::{CellRef, Row};

#[test]
fn mod_add_cell() {
    let value: AnyType = 67u16.into();
    let mut row: Row = Row::new(3);
    let _cell: Cell = Cell::new(value, &row, "timmeh");
    let cell_ref = CellRef { row_id: 3, column_id: 0 };

    row.add_cell(cell_ref);

    assert!(cell_ref == row.get_cells()[0]);
}

#[test]
fn add_cell_ref_count() {
    let value: AnyType = 67u16.into();
    let mut row: Row = Row::new(3);
    let _cell: Cell = Cell::new(value, &row, "timmeh");
    let cell_ref = CellRef { row_id: 3, column_id: 0 };

    row.add_cell(cell_ref);

    assert!(1 == row.get_cells().len());
    assert!(row.get_cell(0) == cell_ref);
}

#[test]
fn mod_drop_cell() {
    let value: AnyType = 67u16.into();
    let mut row: Row = Row::new(3);
    let _cell: Cell = Cell::new(value, &row, "timmeh");
    let cell_ref = CellRef { row_id: 3, column_id: 0 };

    row.add_cell(cell_ref);
    assert!(row.get_cells().len() == 1);

    row.drop_cell(&cell_ref);
    assert!(row.get_cells().len() == 0);
}

#[test]
fn update_index() {
    let value: AnyType = 67u16.into();
    let mut row: Row = Row::new(3);
    let _cell: Cell = Cell::new(value, &row, "timmeh");

    row.add_cell(CellRef { row_id: 3, column_id: 0 });
    row.update_index(7);
    assert!(row.index == 7);
}

#[test]
fn drop_cell_keeps_other_references() {
    let mut row = Row::new(0);
    let a = CellRef { row_id: 0, column_id: 0 };
    let b = CellRef { row_id: 0, column_id: 1 };
    let c = CellRef { row_id: 0, column_id: 2 };
    row.add_cell(a);
    row.add_cell(b);
    row.add_cell(c);
    row.drop_cell(&b);
    assert_eq!(row.get_cells(), &vec![a, c]);
    assert_eq!(row.get_last_cell(), Some(c));
}

#[test]
fn last_cell_of_empty_row_is_absent() {
    let row = Row::new(0);
    assert_eq!(row.get_last_cell(), None);
}

#[test]
fn row_is_stamped_with_the_clock() {
    let row = Row::new(0);
    assert!(row.get_timestamp() > 1_000_000_000);
}
