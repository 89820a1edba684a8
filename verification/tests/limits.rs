use array_sort::arrays::AnyArray;
use array_sort::checked::checked_array_sort;
use array_sort::error::ArraySortError;
use array_sort::rows::list_from_rows;
use array_sort::sort::array_sort_inner;
use arrow::array::{
    Array, ArrayRef, AsArray, BooleanArray, DictionaryArray, FixedSizeBinaryArray,
    FixedSizeListArray, Int32Array, Int64Array, Int8Array, ListArray, NullArray, PrimitiveArray,
    RunArray, StringArray, StringViewArray, StructArray, UInt8Array,
};
use arrow::datatypes::{
    ArrowDictionaryKeyType, DataType, Field, Int32Type, Int64Type, Int8Type, UInt8Type,
};
use arrow_buffer::{NullBuffer, OffsetBuffer};
use arrow_schema::ArrowError;
use std::sync::Arc;

fn lists(lengths: Vec<usize>, values: ArrayRef, valid: Vec<bool>) -> AnyArray {
    let field = Arc::new(Field::new("element", values.data_type().clone(), true));
    let offsets = OffsetBuffer::from_lengths(lengths);
    let nulls = Some(NullBuffer::from(valid));
    AnyArray(Arc::new(ListArray::new(field, offsets, values, nulls)))
}

fn word(text: &str) -> AnyArray {
    AnyArray(Arc::new(StringArray::from(vec![text])))
}

fn list(array: &AnyArray) -> ListArray {
    array.0.as_any().downcast_ref::<ListArray>().expect("list").clone()
}

fn sorted(column: AnyArray) -> ListArray {
    let checked = checked_array_sort(&[column.clone()]).expect("within limits").expect("sorted");
    checked.0.to_data().validate_full().expect("valid");
    assert_eq!(&array_sort_inner(&[column]).expect("sorted").0, &checked.0);
    list(&checked)
}

fn error_text(column: AnyArray) -> String {
    match checked_array_sort(&[column]) {
        Some(Err(ArraySortError::Compute(ArrowError::ComputeError(text)))) => text,
        other => panic!("{other:?}"),
    }
}

fn dictionary<K: ArrowDictionaryKeyType>(keys: PrimitiveArray<K>, len: i64) -> ArrayRef {
    let values = Int64Array::from((0..len).map(|n| len - n).collect::<Vec<i64>>());
    Arc::new(DictionaryArray::<K>::new(keys, Arc::new(values)))
}

fn numbers<K: ArrowDictionaryKeyType>(row: &ArrayRef) -> Vec<i64> {
    let row = row.as_dictionary::<K>();
    let row = row.downcast_dict::<Int64Array>().unwrap();
    row.into_iter().flatten().collect()
}

#[test]
fn dictionaries_have_room_up_to_their_greatest_key() {
    let keys = || Int8Array::from(vec![0, 1, 2, 126]);
    let column = lists(vec![2, 2], dictionary::<Int8Type>(keys(), 127), vec![true, true]);
    let result = sorted(column);
    assert_eq!(numbers::<Int8Type>(&result.value(0)), vec![126, 127]);
    assert_eq!(numbers::<Int8Type>(&result.value(1)), vec![1, 125]);

    let column = lists(vec![2, 2], dictionary::<Int8Type>(keys(), 128), vec![true, true]);
    assert!(checked_array_sort(&[column]).is_none());
    let column = lists(vec![1, 3], dictionary::<Int8Type>(keys(), 128), vec![false, true]);
    assert_eq!(numbers::<Int8Type>(&sorted(column).value(1)), vec![2, 126, 127]);

    let keys = || UInt8Array::from(vec![0, 1, 2, 254]);
    let column = lists(vec![2, 2], dictionary::<UInt8Type>(keys(), 255), vec![true, true]);
    assert_eq!(numbers::<UInt8Type>(&sorted(column).value(1)), vec![1, 253]);
    let column = lists(vec![2, 2], dictionary::<UInt8Type>(keys(), 256), vec![true, true]);
    assert!(checked_array_sort(&[column]).is_none());
}

#[test]
fn wrong_modifiers_are_found_before_the_limits() {
    let keys = Int8Array::from(vec![0, 1, 2, 126]);
    let column = lists(vec![2, 2], dictionary::<Int8Type>(keys, 128), vec![true, true]);
    assert!(matches!(
        checked_array_sort(&[column.clone(), word("up")]),
        Some(Err(ArraySortError::Direction))
    ));
    assert!(matches!(
        checked_array_sort(&[column.clone(), word("ASC"), word("up")]),
        Some(Err(ArraySortError::NullPlacement))
    ));
    assert!(checked_array_sort(&[column, word("ASC")]).is_none());
}

#[test]
fn sorts_lists_with_items_under_null_slots() {
    let words = StringArray::from(vec!["c", "hidden", "b", "a", "hidden too", "d"]);
    let inner = list(&lists(
        vec![1, 1, 2, 1, 1],
        Arc::new(words),
        vec![true, false, true, false, true],
    ));
    let result = sorted(lists(vec![3, 2], Arc::new(inner), vec![true, true]));
    let texts = |row: ArrayRef| -> Vec<Option<Vec<String>>> {
        let row = row.as_list::<i32>().clone();
        row.iter()
            .map(|l| l.map(|l| l.as_string::<i32>().iter().flatten().map(String::from).collect()))
            .collect()
    };
    let row = |words: &[&str]| Some(words.iter().map(|w| w.to_string()).collect::<Vec<String>>());
    assert_eq!(texts(result.value(0)), vec![None, row(&["b", "a"]), row(&["c"])]);
    assert_eq!(texts(result.value(1)), vec![None, row(&["d"])]);

    let words = StringArray::from(vec!["c", "hidden", "b"]);
    let field = Arc::new(Field::new("item", DataType::Utf8, true));
    let nulls = Some(NullBuffer::from(vec![true, false, true]));
    let inner = FixedSizeListArray::new(field, 1, Arc::new(words), nulls);
    let result = sorted(lists(vec![2, 1], Arc::new(inner), vec![true, true]));
    let first = result.value(0);
    let first = first.as_fixed_size_list();
    assert!(first.is_null(0));
    assert_eq!(first.value(1).as_string::<i32>().value(0), "c");
}

#[test]
fn sorted_columns_are_packed() {
    let values: ArrayRef = Arc::new(Int32Array::from(vec![9, 3, 2, 1, 7, 6, 5, 9]));
    let column = list(&lists(
        vec![1, 2, 1, 0, 3, 1],
        values,
        vec![true, true, false, true, true, true],
    ));
    let result = sorted(AnyArray(Arc::new(column.slice(1, 4))));
    assert_eq!(result.value_offsets(), &[0, 2, 2, 2, 5]);
    let values = result.values().as_primitive::<Int32Type>();
    assert_eq!(values.values().to_vec(), vec![2, 3, 5, 6, 7]);
    let nulls = result.nulls().expect("bitmap");
    assert_eq!(nulls.iter().collect::<Vec<bool>>(), vec![true, false, true, true]);
}

#[test]
fn a_bitmap_is_there_even_without_null_rows() {
    let field = Arc::new(Field::new("item", DataType::Int32, true));
    let values: ArrayRef = Arc::new(Int32Array::from(vec![2, 1]));
    let column = ListArray::new(field, OffsetBuffer::from_lengths([2]), values, None);
    assert!(column.nulls().is_none());
    let result = sorted(AnyArray(Arc::new(column)));
    assert_eq!(result.nulls().map(|n| (n.len(), n.null_count())), Some((1, 0)));

    let rows = vec![Some(AnyArray(Arc::new(Int32Array::from(vec![4]))))];
    let made = list(&list_from_rows(DataType::Int32, &rows).unwrap());
    assert_eq!(made.value_offsets(), &[0, 1]);
    assert!(made.nulls().is_some());
}

#[test]
fn tells_why_a_kernel_failed() {
    let values: ArrayRef = Arc::new(Int32Array::from(vec![1]));
    let text = error_text(lists(vec![0, 1], values, vec![false, false]));
    assert_eq!(text, "concat requires input of at least one array");

    let text = error_text(lists(vec![2], Arc::new(NullArray::new(2)), vec![true]));
    assert_eq!(text, "Sort not supported for data type Null");

    let flags: ArrayRef = Arc::new(BooleanArray::from(vec![true, false]));
    let inner = list(&lists(vec![1, 1], flags.clone(), vec![true, true]));
    let text = error_text(lists(vec![2], Arc::new(inner), vec![true]));
    assert_eq!(text, "Boolean not supported in rank");

    let keys = Int8Array::from(vec![1, 0]);
    let values = DictionaryArray::<Int8Type>::new(keys, flags);
    let text = error_text(lists(vec![2], Arc::new(values), vec![true]));
    assert_eq!(text, "Boolean not supported in rank");

    let bytes = FixedSizeBinaryArray::try_from_iter([[2u8, 1], [1, 2]].iter()).unwrap();
    let inner = list(&lists(vec![1, 1], Arc::new(bytes), vec![true, true]));
    let text = error_text(lists(vec![2], Arc::new(inner), vec![true]));
    assert_eq!(text, "FixedSizeBinary(2) not supported in rank");

    let keys = Int8Array::from(vec![1, 0]);
    let words: ArrayRef = Arc::new(StringArray::from(vec!["a", "b"]));
    let values = DictionaryArray::<Int8Type>::new(keys, words);
    let inner = list(&lists(vec![1, 1], Arc::new(values), vec![true, true]));
    let text = error_text(lists(vec![2], Arc::new(inner), vec![true]));
    assert_eq!(text, "Dictionary(Int8, Utf8) not supported in rank");

    let field = Arc::new(Field::new("n", DataType::Int32, true));
    let numbers: ArrayRef = Arc::new(Int32Array::from(vec![2]));
    let structs = StructArray::from(vec![(field, numbers)]);
    let text = error_text(lists(vec![1], Arc::new(structs), vec![true]));
    assert!(text.starts_with("Sort not supported for data type Struct"));
}

fn runs(ends: Vec<i32>, values: ArrayRef) -> RunArray<Int32Type> {
    RunArray::<Int32Type>::try_new(&Int32Array::from(ends), values.as_ref()).unwrap()
}

#[test]
fn sorts_one_list_of_runs_of_runs() {
    let inner = runs(vec![1, 3], Arc::new(Int32Array::from(vec![5, 4])));
    let outer = runs(vec![2, 3, 4], Arc::new(inner));
    let result = sorted(lists(vec![0, 4], Arc::new(outer), vec![false, true]));
    let row = result.value(1);
    let row = row.as_any().downcast_ref::<RunArray<Int32Type>>().unwrap();
    let values = row.values().as_any().downcast_ref::<RunArray<Int32Type>>().unwrap().clone();
    let numbers = values.values().as_primitive::<Int32Type>().clone();
    let numbers: Vec<i32> = (0..row.len())
        .map(|i| numbers.value(values.get_physical_index(row.get_physical_index(i))))
        .collect();
    assert_eq!(numbers, vec![4, 4, 5, 5]);
}

#[test]
fn sorts_one_list_of_runs_of_lists() {
    let inner = ListArray::from_iter_primitive::<Int32Type, _, _>(vec![
        Some(vec![Some(2)]),
        Some(vec![Some(1), Some(1)]),
    ]);
    let outer = runs(vec![1, 3], Arc::new(inner));
    let result = sorted(lists(vec![3], Arc::new(outer), vec![true]));
    let row = result.value(0);
    let row = row.as_any().downcast_ref::<RunArray<Int32Type>>().unwrap();
    assert_eq!(row.run_ends().values(), &[2, 3]);
    let values = row.values().as_list::<i32>().clone();
    assert_eq!(values.value(0).len(), 2);
    assert_eq!(values.value(1).len(), 1);
}

#[test]
fn sorts_one_empty_list_of_runs_within_the_first() {
    let values = runs(vec![2, 3], Arc::new(Int32Array::from(vec![7, 8])));
    let column = lists(vec![1, 0, 2], Arc::new(values.clone()), vec![false, true, false]);
    let result = checked_array_sort(&[column]).expect("within limits").expect("sorted");
    assert_eq!(list(&result).value_offsets(), &[0, 0, 0, 0]);
    assert_eq!(list(&result).values().len(), 0);
    let again = checked_array_sort(&[result.clone()]).expect("within limits").expect("sorted");
    assert_eq!(list(&again).value_offsets(), list(&result).value_offsets());
    assert_eq!(list(&again).data_type(), list(&result).data_type());
    assert_eq!(list(&again).nulls(), list(&result).nulls());
    let column = lists(vec![3, 0], Arc::new(values), vec![false, true]);
    assert!(checked_array_sort(&[column]).is_none());
    let none = runs(vec![], Arc::new(Int32Array::from(Vec::<i32>::new())));
    let column = lists(vec![0], Arc::new(none), vec![true]);
    assert!(checked_array_sort(&[column]).is_none());
}

#[test]
fn refuses_lists_of_runs_of_values_without_order() {
    let values = runs(vec![1], Arc::new(NullArray::new(1)));
    let column = lists(vec![1], Arc::new(values.clone()), vec![true]);
    assert!(checked_array_sort(&[column]).is_none());
    let column = lists(vec![1], Arc::new(values), vec![false]);
    assert_eq!(error_text(column), "concat requires input of at least one array");
}

#[test]
fn sorts_fixed_size_binary_values_with_nulls() {
    let values = [None, Some([2u8, 1]), Some([1, 2]), None];
    let values =
        FixedSizeBinaryArray::try_from_sparse_iter_with_size(values.into_iter(), 2).unwrap();
    let result = sorted(lists(vec![3, 1], Arc::new(values), vec![true, true]));
    let row = result.value(0);
    let row: Vec<Option<&[u8]>> = row.as_fixed_size_binary().iter().collect();
    assert_eq!(row, vec![None, Some(&[1u8, 2][..]), Some(&[2, 1][..])]);
    assert!(result.value(1).is_null(0));
}

#[test]
fn sorts_many_lists_of_views_and_numbers() {
    let long = "a text that is too long to be kept inline";
    let values = StringViewArray::from(vec![Some("b"), Some(long), Some("z"), None]);
    let result = sorted(lists(vec![2, 2], Arc::new(values), vec![true, true]));
    let first = result.value(0);
    assert_eq!(first.as_string_view().value(0), long);
    assert!(result.value(1).is_null(0));

    let values = Int64Array::from((0..1000).rev().collect::<Vec<i64>>());
    let result = sorted(lists(vec![1; 1000], Arc::new(values), vec![true; 1000]));
    assert_eq!(result.values().as_primitive::<Int64Type>().value(0), 999);
}
