use dataframe::column::RollingMean;
use dataframe::datatypes::AnyType;
use dataframe::frame::DataFrame;

fn cell_value(dataframe: &DataFrame, row: usize, column: usize) -> AnyType {
    let cell_ref = dataframe.get_rows()[row].get_cell(column);
    *dataframe.get_cell(&cell_ref).unwrap().get_value()
}

#[test]
fn drop_row() {
    let columns = vec!["rando", "second"];
    let mut dataframe = DataFrame::new(columns);
    let cell_values: Vec<AnyType> = vec![6.into(), "whoop".into()];
    dataframe.add_row(cell_values);
    let cell_values2: Vec<AnyType> = vec![7.into(), "whoop".into()];
    dataframe.add_row(cell_values2);
    let cell_ref = dataframe.get_rows()[0].get_cell(0);
    dataframe.drop_row(0);

    assert!(dataframe.get_cell(&cell_ref).is_none());
    assert_eq!(dataframe.get_rows().len(), 1);
    assert_eq!(dataframe.get_rows()[0].index, 0);
    assert_eq!(dataframe.get_columns()[0].get_cells().len(), 1);
}

#[test]
fn drop_column() {
    let columns = vec!["rando", "second"];
    let mut dataframe = DataFrame::new(columns);
    let cell_values: Vec<AnyType> = vec![6.into(), "whoop".into()];
    dataframe.add_row(cell_values);
    let cell_values2: Vec<AnyType> = vec![7.into(), "whoop".into()];
    dataframe.add_row(cell_values2);
    let cell_ref = dataframe.get_rows()[0].get_cell(1);
    let cell_ref2 = dataframe.get_rows()[1].get_cell(1);
    dataframe.drop_column(1);

    assert!(dataframe.get_cell(&cell_ref).is_none());
    assert!(dataframe.get_cell(&cell_ref2).is_none());
    assert_eq!(dataframe.get_rows().len(), 2);
    assert_eq!(dataframe.get_columns().len(), 1);
}

#[test]
fn create_returns_column() {
    let columns = vec!["rando", "second"];
    let mut dataframe = DataFrame::new(columns);
    dataframe.create_returns_for_column("rando", "rando_returns", RollingMean::new(true, Some(2)));
    let cell_values: Vec<AnyType> = vec![6u8.into(), "whoop".into()];
    dataframe.add_row(cell_values);

    assert_eq!(dataframe.get_columns().len(), 3);
    assert_eq!(dataframe.get_columns()[0].returns.should_calculate, true);
    assert_eq!(dataframe.get_columns()[0].returns.column_name, Some("rando_returns"));
    assert_eq!(dataframe.get_rows()[0].get_cells().len(), 3);
    assert_eq!(cell_value(&dataframe, 0, 2), AnyType::Null);
}

#[test]
fn add_returns_column() {
    let columns = vec!["rando", "second"];
    let mut dataframe = DataFrame::new(columns);
    dataframe.create_returns_for_column("rando", "rando_returns", RollingMean::new(true, Some(2)));
    let cell_values: Vec<AnyType> = vec![6.into(), "whoop".into()];
    dataframe.add_row(cell_values);
    let cell_values2: Vec<AnyType> = vec![7.into(), "whoop".into()];
    dataframe.add_row(cell_values2);
    let cell_values3: Vec<AnyType> = vec![8.into(), "whoop".into()];
    dataframe.add_row(cell_values3);
    let cell_values4: Vec<AnyType> = vec![11.into(), "whoop".into()];
    dataframe.add_row(cell_values4);
    let cell_values5: Vec<AnyType> = vec![1.into(), "whoop".into()];
    dataframe.add_row(cell_values5);
    assert!(dataframe.get_columns().len() == 3);
    assert!(dataframe.get_rows().len() == 5);
    assert!(dataframe.get_rows()[0].get_cells().len() == 3);
    assert_eq!(cell_value(&dataframe, 2, 2), 1isize.into());
    assert_eq!(cell_value(&dataframe, 3, 2), 3isize.into());
    assert_eq!(cell_value(&dataframe, 4, 2), (-10isize).into());
}

#[test]
fn rolling_mean() {
    let columns = vec!["rando", "second"];
    let mut dataframe = DataFrame::new(columns);
    dataframe.update_column_rolling_mean("rando", RollingMean::new(true, Some(2)));
    let cell_values: Vec<AnyType> = vec![6usize.into(), "whoop".into()];
    dataframe.add_row(cell_values);
    let cell_values2: Vec<AnyType> = vec![7usize.into(), "whoop".into()];
    dataframe.add_row(cell_values2);
    let cell_values3: Vec<AnyType> = vec![7usize.into(), "whoop".into()];
    dataframe.add_row(cell_values3);
    let cell_values4: Vec<AnyType> = vec![9usize.into(), "whoop".into()];
    dataframe.add_row(cell_values4);
    let cell_values5: Vec<AnyType> = vec![1usize.into(), "whoop".into()];
    dataframe.add_row(cell_values5);
    assert!(dataframe.get_columns().len() == 2);
    assert!(dataframe.get_rows().len() == 5);
    assert!(dataframe.get_rows()[0].get_cells().len() == 2);
    let mean_at = |row: usize| {
        let cell_ref = dataframe.get_rows()[row].get_cell(0);
        dataframe.get_cell(&cell_ref).unwrap().get_rolling_mean()
    };
    assert_eq!(mean_at(2), Some(7usize.into()));
    assert_eq!(mean_at(3), Some(8usize.into()));
    assert_eq!(mean_at(4), Some(5usize.into()));
}

#[test]
fn get_column_values_with_unix_datetime() {
    let columns = vec!["rando", "second"];
    let mut dataframe = DataFrame::new(columns);
    for value in [6usize, 7, 7, 9, 1] {
        dataframe.add_row(vec![value.into(), "whoop".into()]);
    }

    let column_values: Vec<(i64, usize)> = dataframe.get_column_values_with_unix_datetime::<usize>("rando");

    assert_eq!(column_values[0].1, 6usize);
    assert_eq!(column_values.len(), 5);
    assert_eq!(column_values[0].0, dataframe.get_rows()[0].get_timestamp());
}

#[test]
fn returns_column_holds_every_difference() {
    let mut dataframe = DataFrame::new(vec!["rando", "second"]);
    dataframe.create_returns_for_column("rando", "rando_returns", RollingMean::new(false, None));
    for value in [6, 7, 8, 11, 1] {
        dataframe.add_row(vec![value.into(), "whoop".into()]);
    }
    let returns: Vec<AnyType> = dataframe.get_columns()[2].get_cells().iter().map(|c| *c.get_value()).collect();
    assert_eq!(
        returns,
        vec![AnyType::Null, AnyType::ISize(1), AnyType::ISize(1), AnyType::ISize(3), AnyType::ISize(-10)]
    );
}

#[test]
fn returns_column_made_after_rows_takes_history() {
    let mut dataframe = DataFrame::new(vec!["rando", "second"]);
    for value in [6, 7, 9] {
        dataframe.add_row(vec![value.into(), "whoop".into()]);
    }
    dataframe.create_returns_for_column("rando", "rando_returns", RollingMean::new(false, None));
    dataframe.add_row(vec![4.into(), "whoop".into()]);
    let returns: Vec<AnyType> = dataframe.get_columns()[2].get_cells().iter().map(|c| *c.get_value()).collect();
    assert_eq!(returns, vec![AnyType::Null, AnyType::ISize(1), AnyType::ISize(2), AnyType::ISize(-5)]);
    assert_eq!(dataframe.get_rows()[3].get_cells().len(), 3);
}

#[test]
fn dropping_a_row_renumbers_and_clears_every_index() {
    let mut dataframe = DataFrame::new(vec!["rando", "second"]);
    dataframe.add_row(vec![6.into(), "whoop".into()]);
    dataframe.add_row(vec![7.into(), "yay".into()]);
    dataframe.drop_row(0);
    assert_eq!(dataframe.get_rows().len(), 1);
    assert_eq!(dataframe.get_rows()[0].index, 0);
    for column in dataframe.get_columns() {
        assert_eq!(column.get_cells().len(), 1);
        assert_eq!(column.get_cells()[0].get_row(), 0);
    }
    assert_eq!(dataframe.get_columns()[0].get_grouped_values(6.into()), None);
    assert_eq!(dataframe.get_columns()[1].get_grouped_values("whoop".into()), None);
    assert_eq!(dataframe.get_columns()[0].get_grouped_values(7.into()).unwrap().len(), 1);
    assert_eq!(cell_value(&dataframe, 0, 1), AnyType::Utf8("yay"));
}

#[test]
fn dropping_a_row_recomputes_rolling_means() {
    let mut dataframe = DataFrame::new(vec!["rando"]);
    dataframe.update_column_rolling_mean("rando", RollingMean::new(true, Some(2)));
    for value in [67u16, 69, 71] {
        dataframe.add_row(vec![value.into()]);
    }
    dataframe.drop_row(1);
    let means: Vec<Option<AnyType>> = dataframe.get_columns()[0].get_cells().iter().map(|c| c.get_rolling_mean()).collect();
    assert_eq!(means, vec![None, Some(AnyType::UInt16(69))]);
}

#[test]
fn dropping_a_column_by_name_shifts_references() {
    let mut dataframe = DataFrame::new(vec!["a", "b", "c"]);
    dataframe.add_row(vec![1u8.into(), 2u8.into(), 3u8.into()]);
    dataframe.drop_column_by_name("b");
    assert_eq!(dataframe.get_columns().len(), 2);
    assert_eq!(dataframe.get_columns()[1].name, "c");
    assert_eq!(dataframe.get_rows()[0].get_cells().len(), 2);
    assert_eq!(cell_value(&dataframe, 0, 1), AnyType::UInt8(3));
}

#[test]
fn add_column_from_values_links_rows() {
    let mut dataframe = DataFrame::new(vec!["a"]);
    dataframe.add_row(vec![1u8.into()]);
    dataframe.add_row(vec![2u8.into()]);
    dataframe.add_column_from_values("b", vec![10u8.into(), 20u8.into()], RollingMean::new(true, Some(2)));
    assert_eq!(cell_value(&dataframe, 1, 1), AnyType::UInt8(20));
    let means: Vec<Option<AnyType>> = dataframe.get_columns()[1].get_cells().iter().map(|c| c.get_rolling_mean()).collect();
    assert_eq!(means, vec![None, Some(AnyType::UInt8(15))]);
}
