use dataframe::cell::Cell;
use dataframe::datatypes::AnyType;
use dataframe::row::Row;

#[test]
fn assign_row() {
    let value: AnyType = 67u16.into();
    let row: Row = Row::new(3);
    let cell: Cell = Cell::new(value, &row, "timmeh");

    assert!(row.index == cell.get_row());
}

#[test]
fn clone_row() {
    let value: AnyType = 67u16.into();
    let row: Row = Row::new(3);
    let cell: Cell = Cell::new(value, &row, "timmeh");

    assert!(row.index == cell.clone_row());
}

#[test]
fn get_value() {
    let value: AnyType = 67u16.into();
    let row: Row = Row::new(3);
    let cell: Cell = Cell::new(value, &row, "timmeh");

    assert!(&value == cell.get_value());
}

#[test]
fn cells_equal_by_value_and_row() {
    let row = Row::new(3);
    let other_row = Row::new(4);
    let a = Cell::new(67u16.into(), &row, "timmeh");
    let b = Cell::new(67u16.into(), &row, "other");
    let c = Cell::new(67u16.into(), &other_row, "timmeh");
    let d = Cell::new(68u16.into(), &row, "timmeh");
    assert!(a == b);
    assert!(a != c);
    assert!(a != d);
}

#[test]
fn cell_keeps_row_time_and_rolling_mean() {
    let row = Row::new(0);
    let mut cell = Cell::new(1u8.into(), &row, "timmeh");
    assert_eq!(cell.get_timestamp(), row.get_timestamp());
    assert_eq!(cell.get_column_name(), "timmeh");
    assert_eq!(cell.get_rolling_mean(), None);
    cell.set_rolling_mean(Some(AnyType::UInt8(1)));
    assert_eq!(cell.get_rolling_mean(), Some(AnyType::UInt8(1)));
}
