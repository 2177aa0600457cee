use dataframe::cell::Cell;
use dataframe::column::{Column, Returns, RollingMean};
use dataframe::datatypes::AnyType;
use dataframe::row::Row;

fn column_of(values: &[AnyType], rolling_mean: RollingMean) -> Column {
    let mut column = Column::new("timmeh", rolling_mean, Returns::new(false, None));
    for (i, value) in values.iter().enumerate() {
        let row = Row::new(i);
        column.add_cell(Cell::new(*value, &row, "timmeh"));
    }
    column
}

fn rolling_means(column: &Column) -> Vec<Option<AnyType>> {
    column.get_cells().iter().map(|c| c.get_rolling_mean()).collect()
}

#[test]
fn add_cell() {
    let value: AnyType = 67u16.into();
    let row: Row = Row::new(3);
    let cell: Cell = Cell::new(value, &row, "timmeh");

    let mut column = Column::new("timmeh", RollingMean::new(false, None), Returns::new(false, None));
    column.add_cell(cell);

    assert!(column.get_grouped_values(value) == Some(vec![cell]));
    assert!(column.get_cells()[0] == cell);
}

#[test]
fn add_cell_rolling_mean() {
    let row: Row = Row::new(0);
    let cell: Cell = Cell::new(67u16.into(), &row, "timmeh");
    let second_row: Row = Row::new(1);
    let second_cell: Cell = Cell::new(69u16.into(), &second_row, "timmeh");

    let mut column = Column::new("timmeh", RollingMean::new(true, Some(2)), Returns::new(false, None));
    column.add_cell(cell);
    column.add_cell(second_cell);

    assert!(column.get_cells()[0].get_rolling_mean() == None);
    assert!(column.get_cells()[1].get_rolling_mean() == Some(68u16.into()));
}

#[test]
fn update_rolling_mean() {
    let row: Row = Row::new(0);
    let cell: Cell = Cell::new(67u16.into(), &row, "timmeh");
    let second_row: Row = Row::new(1);
    let second_cell: Cell = Cell::new(69u16.into(), &second_row, "timmeh");

    let mut column = Column::new("timmeh", RollingMean::new(false, None), Returns::new(false, None));
    column.add_cell(cell);
    column.add_cell(second_cell);

    assert!(column.get_cells()[0].get_rolling_mean() == None);
    assert!(column.get_cells()[1].get_rolling_mean() == None);

    column.update_rolling_mean(RollingMean::new(true, Some(2)));

    assert!(column.get_cells()[0].get_rolling_mean() == None);
    assert!(column.get_cells()[1].get_rolling_mean() == Some(68u16.into()));
}

#[test]
fn drop_cell() {
    let row: Row = Row::new(0);
    let cell: Cell = Cell::new(67u16.into(), &row, "timmeh");
    let second_row: Row = Row::new(1);
    let second_cell: Cell = Cell::new(69u16.into(), &second_row, "timmeh");
    let mut third_row: Row = Row::new(2);
    let third_cell: Cell = Cell::new(71u16.into(), &third_row, "timmeh");

    let mut column = Column::new("timmeh", RollingMean::new(true, Some(2)), Returns::new(false, None));
    column.add_cell(cell);
    column.add_cell(second_cell);
    column.add_cell(third_cell);

    assert!(column.get_cells()[0].get_rolling_mean() == None);
    assert!(column.get_cells()[1].get_rolling_mean() == Some(68u16.into()));
    assert!(column.get_cells()[2].get_rolling_mean() == Some(70u16.into()));
    third_row.update_index(1);
    column.drop_cell(second_cell);

    assert!(column.get_cells()[0].get_rolling_mean() == None);
    assert!(column.get_cells()[1].get_rolling_mean() == Some(69u16.into()));
}

#[test]
fn mean() {
    let row: Row = Row::new(0);
    let cell: Cell = Cell::new(67u16.into(), &row, "timmeh");
    let second_row: Row = Row::new(1);
    let second_cell: Cell = Cell::new(69u16.into(), &second_row, "timmeh");
    let third_row: Row = Row::new(2);
    let third_cell: Cell = Cell::new(71u16.into(), &third_row, "timmeh");

    let mut column = Column::new("timmeh", RollingMean::new(true, Some(2)), Returns::new(false, None));
    column.add_cell(cell);
    column.add_cell(second_cell);
    column.add_cell(third_cell);

    assert!(column.mean() == Some(69u16.into()));
}

#[test]
fn get_all_difference_to_last() {
    let row: Row = Row::new(0);
    let cell: Cell = Cell::new(67u16.into(), &row, "timmeh");
    let second_row: Row = Row::new(1);
    let second_cell: Cell = Cell::new(69u16.into(), &second_row, "timmeh");
    let third_row: Row = Row::new(2);
    let third_cell: Cell = Cell::new(71u16.into(), &third_row, "timmeh");

    let mut column = Column::new("timmeh", RollingMean::new(true, Some(2)), Returns::new(false, None));
    column.add_cell(cell);
    column.add_cell(second_cell);
    column.add_cell(third_cell);

    assert!(column.get_all_difference_to_last() == vec![AnyType::Null, 2isize.into(), 2isize.into()]);
}

#[test]
fn get_values_as_vec_with_unix_datetime() {
    let row: Row = Row::new(0);
    let cell: Cell = Cell::new(67u16.into(), &row, "timmeh");
    let second_row: Row = Row::new(1);
    let second_cell: Cell = Cell::new(69u16.into(), &second_row, "timmeh");
    let third_row: Row = Row::new(2);
    let third_cell: Cell = Cell::new(71u16.into(), &third_row, "timmeh");

    let mut column = Column::new("timmeh", RollingMean::new(false, None), Returns::new(false, None));
    column.add_cell(cell);
    column.add_cell(second_cell);
    column.add_cell(third_cell);

    let values_as_vec: Vec<(i64, u16)> = column.get_values_as_vec_with_unix_datetime::<u16>();

    assert_eq!(values_as_vec.len(), 3);
    assert_eq!(values_as_vec[0].1, 67u16);
    assert_eq!(values_as_vec[1].1, 69u16);
    assert_eq!(values_as_vec[2].1, 71u16);
    assert_eq!(values_as_vec[0].0, row.get_timestamp());
}

#[test]
fn get_rolling_means_as_vec_with_unix_datetime_diff() {
    let row: Row = Row::new(0);
    let cell: Cell = Cell::new(67u16.into(), &row, "timmeh");
    let second_row: Row = Row::new(1);
    let second_cell: Cell = Cell::new(69u16.into(), &second_row, "timmeh");
    let third_row: Row = Row::new(2);
    let third_cell: Cell = Cell::new(71u16.into(), &third_row, "timmeh");
    let fourth_row: Row = Row::new(3);
    let fourth_cell: Cell = Cell::new(77u16.into(), &fourth_row, "timmeh");

    let mut column = Column::new("timmeh", RollingMean::new(true, Some(2)), Returns::new(false, None));
    column.add_cell(cell);
    column.add_cell(second_cell);
    column.add_cell(third_cell);
    column.add_cell(fourth_cell);

    let values_as_vec: Vec<(f64, f64)> = column
        .get_rolling_means_with_unix_datetime()
        .iter()
        .filter_map(|(t, m)| Option::<u16>::from(*m).map(|v| (*t as f64, v as f64)))
        .collect();

    assert_eq!(values_as_vec.len(), 3);
    assert_eq!(values_as_vec[0].1, 68f64);
    assert_eq!(values_as_vec[1].1, 70f64);
    assert_eq!(values_as_vec[2].1, 74f64);
}

#[test]
fn rolling_mean_skips_nulls() {
    let values = [AnyType::UInt32(3), AnyType::Null, AnyType::UInt32(9), AnyType::UInt32(4), AnyType::Null];
    let column = column_of(&values, RollingMean::new(true, Some(3)));
    assert_eq!(
        rolling_means(&column),
        vec![None, None, Some(AnyType::UInt32(6)), Some(AnyType::UInt32(6)), Some(AnyType::UInt32(6))]
    );
}

#[test]
fn rolling_mean_of_all_nulls_is_null() {
    let values = [AnyType::Null, AnyType::Null];
    let column = column_of(&values, RollingMean::new(true, Some(2)));
    assert_eq!(rolling_means(&column), vec![None, Some(AnyType::Null)]);
}

#[test]
fn rolling_mean_window_of_one_and_zero() {
    let values = [AnyType::Int8(-3), AnyType::Int8(5)];
    let one = column_of(&values, RollingMean::new(true, Some(1)));
    assert_eq!(rolling_means(&one), vec![Some(AnyType::Int8(-3)), Some(AnyType::Int8(5))]);
    let zero = column_of(&values, RollingMean::new(true, Some(0)));
    assert_eq!(rolling_means(&zero), vec![Some(AnyType::Null), Some(AnyType::Null)]);
}

#[test]
fn rolling_mean_without_window_is_off() {
    let setting = RollingMean::new(true, None);
    assert!(!setting.should_calculate);
    assert_eq!(setting.mean_over, 0);
    let column = column_of(&[AnyType::UInt8(1), AnyType::UInt8(2)], setting);
    assert_eq!(rolling_means(&column), vec![None, None]);
}

#[test]
fn turning_rolling_mean_off_clears_it() {
    let mut column = column_of(&[AnyType::UInt8(1), AnyType::UInt8(3)], RollingMean::new(true, Some(2)));
    column.update_rolling_mean(RollingMean::new(false, None));
    assert_eq!(rolling_means(&column), vec![None, None]);
}

#[test]
fn drop_first_cell_recomputes_window() {
    let values = [AnyType::UInt16(10), AnyType::UInt16(20), AnyType::UInt16(30), AnyType::UInt16(40)];
    let mut column = column_of(&values, RollingMean::new(true, Some(3)));
    let first = column.get_cells()[0];
    column.drop_cell(first);
    assert_eq!(rolling_means(&column), vec![None, None, Some(AnyType::UInt16(30))]);
    let rows: Vec<usize> = column.get_cells().iter().map(|c| c.get_row()).collect();
    assert_eq!(rows, vec![0, 1, 2]);
}

#[test]
fn mean_of_empty_column_is_absent() {
    let column = column_of(&[], RollingMean::new(false, None));
    assert_eq!(column.mean(), None);
}

#[test]
fn mean_counts_only_the_first_kind() {
    let values = [AnyType::Int32(-7), AnyType::Null, AnyType::Int32(2), AnyType::UInt8(200)];
    let column = column_of(&values, RollingMean::new(false, None));
    assert_eq!(column.mean(), Some(AnyType::Int32(-2)));
    let texts = column_of(&[AnyType::Utf8("a")], RollingMean::new(false, None));
    assert_eq!(texts.mean(), None);
    let nulls = column_of(&[AnyType::Null, AnyType::UInt8(3)], RollingMean::new(false, None));
    assert_eq!(nulls.mean(), None);
}

#[test]
fn mean_of_large_values_does_not_overflow() {
    let values = [AnyType::UInt64(u64::MAX), AnyType::UInt64(u64::MAX - 2)];
    let column = column_of(&values, RollingMean::new(false, None));
    assert_eq!(column.mean(), Some(AnyType::UInt64(u64::MAX - 1)));
}

#[test]
fn difference_to_last_of_mixed_kinds_is_null() {
    let column = column_of(&[AnyType::UInt8(1), AnyType::Int8(1)], RollingMean::new(false, None));
    assert_eq!(column.get_difference_to_last(0), AnyType::Null);
    assert_eq!(column.get_difference_to_last(1), AnyType::Null);
}

#[test]
fn update_returns_hands_back_differences() {
    let mut column = column_of(&[AnyType::Int64(5), AnyType::Int64(2)], RollingMean::new(false, None));
    let returned = column.update_returns(Returns::new(true, Some("timmeh_returns")));
    assert_eq!(returned, Some(vec![AnyType::Null, AnyType::ISize(-3)]));
    assert_eq!(column.returns.column_name, Some("timmeh_returns"));
    assert_eq!(column.update_returns(Returns::new(false, None)), None);
}

#[test]
fn grouped_values_follow_drops() {
    let values = [AnyType::UInt8(1), AnyType::UInt8(2), AnyType::UInt8(1), AnyType::UInt8(2)];
    let mut column = column_of(&values, RollingMean::new(false, None));
    let ones: Vec<usize> = column.get_grouped_values(AnyType::UInt8(1)).unwrap().iter().map(|c| c.get_row()).collect();
    assert_eq!(ones, vec![0, 2]);
    let first = column.get_cells()[0];
    column.drop_cell(first);
    let ones: Vec<usize> = column.get_grouped_values(AnyType::UInt8(1)).unwrap().iter().map(|c| c.get_row()).collect();
    assert_eq!(ones, vec![1]);
    let twos: Vec<usize> = column.get_grouped_values(AnyType::UInt8(2)).unwrap().iter().map(|c| c.get_row()).collect();
    assert_eq!(twos, vec![0, 2]);
    let second = column.get_cells()[1];
    column.drop_cell(second);
    assert_eq!(column.get_grouped_values(AnyType::UInt8(1)), None);
    assert_eq!(column.get_grouped_values(AnyType::UInt8(3)), None);
}

#[test]
fn cell_rolling_mean_reads_any_window() {
    let values = [AnyType::UInt16(2), AnyType::UInt16(4), AnyType::UInt16(9)];
    let column = column_of(&values, RollingMean::new(false, None));
    let last = column.get_cells()[2];
    assert_eq!(column.cell_rolling_mean(3, &last), Some(AnyType::UInt16(5)));
    assert_eq!(column.cell_rolling_mean(4, &last), None);
}

#[test]
fn drop_matches_fresh_build() {
    let values = [
        AnyType::Int32(4),
        AnyType::Int32(-8),
        AnyType::Null,
        AnyType::Int32(10),
        AnyType::Int32(6),
        AnyType::Int32(1),
    ];
    let mut column = column_of(&values, RollingMean::new(true, Some(3)));
    let third = column.get_cells()[2];
    column.drop_cell(third);
    let remaining = [values[0], values[1], values[3], values[4], values[5]];
    let fresh = column_of(&remaining, RollingMean::new(true, Some(3)));
    assert_eq!(rolling_means(&column), rolling_means(&fresh));
    assert_eq!(
        rolling_means(&fresh),
        vec![None, None, Some(AnyType::Int32(2)), Some(AnyType::Int32(2)), Some(AnyType::Int32(5))]
    );
}
