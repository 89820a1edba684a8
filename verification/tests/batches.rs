use array_sort::unnest::{benchmark_sizes, case_name, create_test_batch};
use arrow::array::{Array, AsArray, RecordBatch};
use arrow::datatypes::{DataType, Int32Type};

fn batch(num_rows: usize, list_size: usize) -> RecordBatch {
    RecordBatch::from(create_test_batch(num_rows, list_size).0.as_struct())
}

#[test]
fn batches_have_names_and_lists() {
    let batch = batch(4, 100);
    assert_eq!(batch.num_rows(), 4);
    let schema = batch.schema();
    let names: Vec<&str> = schema.fields().iter().map(|f| f.name().as_str()).collect();
    assert_eq!(names, vec!["metadata", "values_a", "values_b", "values_c"]);
    assert!(schema.fields().iter().all(|f| !f.is_nullable()));
    assert_eq!(schema.field(0).data_type(), &DataType::Utf8);
    assert_eq!(schema.field(1).data_type(), &DataType::new_list(DataType::Int32, true));
    let metadata: Vec<_> = batch.column(0).as_string::<i32>().iter().flatten().collect();
    assert_eq!(metadata, vec!["row_0", "row_1", "row_2", "row_3"]);
    for column in 1..4 {
        let lists = batch.column(column).as_list::<i32>();
        for row in 0..4 {
            let list = lists.value(row);
            let list = list.as_primitive::<Int32Type>();
            let start = row as i32 * 100;
            assert_eq!(list.null_count(), 0);
            assert_eq!(list.values().to_vec(), (start..start + 100).collect::<Vec<i32>>());
        }
    }
}

#[test]
fn lists_count_on_from_row_to_row() {
    let batch = batch(12, 7);
    let lists = batch.column(2).as_list::<i32>();
    let values = lists.values().as_primitive::<Int32Type>().values().to_vec();
    assert_eq!(values, (0..84).collect::<Vec<i32>>());
    assert_eq!(batch.column(0).as_string::<i32>().value(11), "row_11");
}

#[test]
fn batches_may_be_empty() {
    let none = batch(0, 5);
    assert_eq!(none.num_rows(), 0);
    assert_eq!(none.num_columns(), 4);
    let short = batch(2, 0);
    assert_eq!(short.num_rows(), 2);
    assert_eq!(short.column(1).as_list::<i32>().value(1).len(), 0);
}

#[test]
fn sizes_beyond_the_range_of_the_items_wrap_around() {
    let wide = 1usize << 32;
    let wrapped = batch(3, wide);
    let lists = wrapped.column(1).as_list::<i32>();
    assert_eq!(lists.values().len(), 0);
    let wrapped = batch(2, wide + 2);
    let lists = wrapped.column(1).as_list::<i32>();
    let values = lists.values().as_primitive::<Int32Type>().values().to_vec();
    assert_eq!(values, vec![0, 1, 2, 3]);
}

#[test]
fn cases_are_named_by_their_size() {
    let names: Vec<String> = benchmark_sizes().iter().map(|(n, m)| case_name(*n, *m)).collect();
    assert_eq!(
        names,
        vec![
            "10rows_100list_1000intermediate",
            "100rows_100list_10000intermediate",
            "1000rows_100list_100000intermediate",
        ]
    );
    assert_eq!(case_name(1234567890, 1), "1234567890rows_1list_1234567890intermediate");
    let greatest = format!("{}", usize::MAX);
    assert_eq!(
        case_name(1, usize::MAX),
        format!("1rows_{greatest}list_{greatest}intermediate")
    );
    assert_eq!(case_name(0, 7), "0rows_7list_0intermediate");
}
