use array_sort::arrays::AnyArray;
use array_sort::checked::checked_array_sort;
use array_sort::error::ArraySortError;
use array_sort::rows::list_from_rows;
use array_sort::sort::array_sort_inner;
use array_sort::udf::ArraySort;
use arrow::array::{
    Array, ArrayRef, AsArray, BinaryViewArray, BooleanArray, DictionaryArray,
    FixedSizeBinaryArray, FixedSizeListArray, Float64Array, Int32Array, Int64Array, LargeListArray,
    LargeStringArray, ListArray, RunArray, StringArray, StringViewArray, StructArray,
    TimestampSecondArray,
};
use arrow::datatypes::{DataType, Field, Int32Type, Int8Type};
use arrow_buffer::{NullBuffer, OffsetBuffer};
use std::sync::Arc;

fn any<A: Array + 'static>(array: A) -> AnyArray {
    AnyArray(Arc::new(array))
}

fn ints(rows: Vec<Option<Vec<Option<i32>>>>) -> AnyArray {
    any(ListArray::from_iter_primitive::<Int32Type, _, _>(rows))
}

fn some(row: &[i32]) -> Option<Vec<Option<i32>>> {
    Some(row.iter().map(|n| Some(*n)).collect())
}

fn word(text: &str) -> AnyArray {
    any(StringArray::from(vec![text]))
}

fn lists(lengths: Vec<usize>, values: ArrayRef, valid: Vec<bool>) -> AnyArray {
    let field = Arc::new(Field::new("element", values.data_type().clone(), true));
    let offsets = OffsetBuffer::from_lengths(lengths);
    any(ListArray::new(field, offsets, values, Some(NullBuffer::from(valid))))
}

fn list(array: &AnyArray) -> ListArray {
    array.0.as_any().downcast_ref::<ListArray>().expect("list").clone()
}

fn sorted(args: &[AnyArray]) -> ListArray {
    let array = array_sort_inner(args).expect("sorted");
    array.0.to_data().validate_full().expect("valid");
    list(&array)
}

fn rows(list: &ListArray) -> Vec<Option<Vec<Option<i32>>>> {
    list.iter()
        .map(|row| row.map(|row| row.as_primitive::<Int32Type>().iter().collect()))
        .collect()
}

fn texts(row: &ArrayRef) -> Vec<Option<&str>> {
    row.as_string::<i32>().iter().collect()
}

#[test]
fn sorts_the_documented_example() {
    let list = sorted(&[ints(vec![some(&[3, 1, 2])])]);
    assert_eq!(rows(&list), vec![some(&[1, 2, 3])]);
}

#[test]
fn sorts_every_row_and_keeps_null_rows() {
    let column = ints(vec![
        Some(vec![Some(3), None, Some(1)]),
        None,
        Some(vec![]),
        Some(vec![Some(9), Some(-9), Some(0), Some(-9)]),
        None,
    ]);
    let list = sorted(&[column]);
    assert_eq!(
        rows(&list),
        vec![
            Some(vec![None, Some(1), Some(3)]),
            None,
            Some(vec![]),
            Some(vec![Some(-9), Some(-9), Some(0), Some(9)]),
            None,
        ]
    );
}

#[test]
fn follows_the_modifiers() {
    let column = ints(vec![Some(vec![Some(2), None, Some(3), Some(1)])]);
    let expected = |row: Vec<Option<i32>>| vec![Some(row)];
    assert_eq!(
        rows(&sorted(&[column.clone(), word("ASC")])),
        expected(vec![None, Some(1), Some(2), Some(3)])
    );
    assert_eq!(
        rows(&sorted(&[column.clone(), word("DESC")])),
        expected(vec![None, Some(3), Some(2), Some(1)])
    );
    assert_eq!(
        rows(&sorted(&[column.clone(), word("ASC"), word("NULLS LAST")])),
        expected(vec![Some(1), Some(2), Some(3), None])
    );
    assert_eq!(
        rows(&sorted(&[column.clone(), word("DESC"), word("NULLS LAST")])),
        expected(vec![Some(3), Some(2), Some(1), None])
    );
    assert_eq!(
        rows(&sorted(&[column.clone(), word("DESC"), word("NULLS FIRST")])),
        expected(vec![None, Some(3), Some(2), Some(1)])
    );
    assert_eq!(
        rows(&sorted(&[column, word("desc"), word("nulls Last")])),
        expected(vec![Some(3), Some(2), Some(1), None])
    );
}

#[test]
fn reads_only_the_first_slot_of_a_modifier() {
    let column = ints(vec![some(&[1, 2]), some(&[4, 3])]);
    let modifiers = any(StringArray::from(vec!["DESC", "ASC", "nonsense"]));
    let list = sorted(&[column, modifiers]);
    assert_eq!(rows(&list), vec![some(&[2, 1]), some(&[4, 3])]);
}

#[test]
fn reads_the_text_of_a_null_modifier() {
    let column = ints(vec![some(&[1, 2])]);
    let null = any(StringArray::from(vec![None::<&str>]));
    assert!(matches!(
        array_sort_inner(&[column.clone(), null]),
        Err(ArraySortError::Direction)
    ));
    let hidden = StringArray::new(
        OffsetBuffer::from_lengths([4]),
        "DESC".as_bytes().to_vec().into(),
        Some(NullBuffer::from(vec![false])),
    );
    assert_eq!(rows(&sorted(&[column, any(hidden)])), vec![some(&[2, 1])]);
}

#[test]
fn refuses_the_wrong_number_of_arguments() {
    assert!(matches!(array_sort_inner(&[]), Err(ArraySortError::ArgumentCount)));
    let column = ints(vec![some(&[1])]);
    let args = [column, word("ASC"), word("NULLS FIRST"), word("more")];
    let error = array_sort_inner(&args).unwrap_err();
    assert_eq!(error.message(), Some("array_sort expects one to three arguments"));
}

#[test]
fn refuses_modifiers_that_are_not_strings() {
    let column = ints(vec![some(&[1])]);
    let number = any(Int32Array::from(vec![1]));
    let large = any(LargeStringArray::from(vec!["ASC"]));
    for other in [number, large] {
        let error = array_sort_inner(&[column.clone(), other.clone()]).unwrap_err();
        assert!(matches!(error, ArraySortError::NotAStringArray));
        assert_eq!(error.message(), None);
        assert!(matches!(
            array_sort_inner(&[column.clone(), word("bad"), other]),
            Err(ArraySortError::NotAStringArray)
        ));
    }
}

#[test]
fn refuses_unknown_modifiers() {
    let column = ints(vec![some(&[1])]);
    let error = array_sort_inner(&[column.clone(), word("up")]).unwrap_err();
    assert!(matches!(error, ArraySortError::Direction));
    assert_eq!(
        error.message(),
        Some("the second parameter of array_sort expects DESC or ASC")
    );
    let error = array_sort_inner(&[column.clone(), word("ASC"), word("first")]).unwrap_err();
    assert!(matches!(error, ArraySortError::NullPlacement));
    assert_eq!(
        error.message(),
        Some("the third parameter of array_sort expects NULLS FIRST or NULLS LAST")
    );
    assert!(matches!(
        array_sort_inner(&[column, word("up"), word("first")]),
        Err(ArraySortError::Direction)
    ));
}

#[test]
fn refuses_what_is_not_a_list_array() {
    let number = any(Int32Array::from(vec![1]));
    let large = LargeListArray::from_iter_primitive::<Int32Type, _, _>(vec![some(&[2, 1])]);
    let fixed = FixedSizeListArray::from_iter_primitive::<Int32Type, _, _>(vec![some(&[2, 1])], 2);
    for other in [number, any(large), any(fixed)] {
        assert!(matches!(
            array_sort_inner(&[other.clone()]),
            Err(ArraySortError::NotAListArray)
        ));
        assert!(matches!(
            array_sort_inner(&[other, word("up")]),
            Err(ArraySortError::Direction)
        ));
    }
}

#[test]
fn fails_where_all_rows_are_null() {
    let column = ints(vec![None, None]);
    assert!(matches!(array_sort_inner(&[column]), Err(ArraySortError::Compute(_))));
}

#[test]
fn fails_where_the_items_have_no_order() {
    let field = Arc::new(Field::new("n", DataType::Int32, true));
    let numbers: ArrayRef = Arc::new(Int32Array::from(vec![2, 1]));
    let structs: ArrayRef = Arc::new(StructArray::from(vec![(field, numbers)]));
    let column = lists(vec![2], structs.clone(), vec![true]);
    assert!(matches!(array_sort_inner(&[column]), Err(ArraySortError::Compute(_))));
    let nested = list(&lists(vec![2], structs, vec![true]));
    let column = lists(vec![1], Arc::new(nested), vec![true]);
    assert!(matches!(array_sort_inner(&[column]), Err(ArraySortError::Compute(_))));
}

#[test]
fn gives_an_empty_column_back_as_it_is() {
    let values: ArrayRef = Arc::new(Int32Array::from(Vec::<i32>::new()));
    let column = lists(vec![], values, vec![]);
    let result = array_sort_inner(&[column.clone(), word("DESC")]).unwrap();
    assert_eq!(&result.0, &column.0);
    assert_eq!(result.0.data_type(), column.0.data_type());
    let structs: ArrayRef = Arc::new(StructArray::new_empty_fields(0, None));
    let column = lists(vec![], structs, vec![]);
    assert_eq!(&array_sort_inner(&[column.clone()]).unwrap().0, &column.0);
}

#[test]
fn names_the_items_of_the_result() {
    let values: ArrayRef = Arc::new(Int32Array::from(vec![2, 1]));
    let field = Arc::new(Field::new("element", DataType::Int32, false));
    let column = any(ListArray::new(field, OffsetBuffer::from_lengths([2]), values, None));
    let result = array_sort_inner(&[column.clone()]).unwrap();
    let expected = DataType::List(Arc::new(Field::new("item", DataType::Int32, true)));
    assert_eq!(result.0.data_type(), &expected);
    let declared = ArraySort::new().return_type(&[column.0.data_type().clone()]).unwrap();
    assert_eq!(result.0.data_type(), &declared);
}

#[test]
fn sorts_strings_by_their_bytes() {
    let values = StringArray::from(vec![
        Some("b"), Some(""), None, Some("ab"), Some("a"), Some("\u{e9}"), Some("z"),
    ]);
    let column = lists(vec![5, 2], Arc::new(values), vec![true, true]);
    let list = sorted(&[column]);
    assert_eq!(texts(&list.value(0)), vec![None, Some(""), Some("a"), Some("ab"), Some("b")]);
    assert_eq!(texts(&list.value(1)), vec![Some("z"), Some("\u{e9}")]);
}

#[test]
fn sorts_views_and_fixed_size_binary() {
    let long = "a text that is too long to be kept inline";
    let values = StringViewArray::from(vec![Some(long), None, Some("a"), Some("b"), Some(long)]);
    let column = lists(vec![3, 2], Arc::new(values), vec![true, true]);
    let list = sorted(&[column, word("DESC"), word("NULLS LAST")]);
    let first = list.value(0);
    let first: Vec<_> = first.as_string_view().iter().collect();
    assert_eq!(first, vec![Some(long), Some("a"), None]);
    let second = list.value(1);
    let second: Vec<_> = second.as_string_view().iter().collect();
    assert_eq!(second, vec![Some("b"), Some(long)]);

    let values = BinaryViewArray::from_iter_values([[2u8, 1], [1, 2]]);
    let list = sorted(&[lists(vec![2], Arc::new(values), vec![true])]);
    let row = list.value(0);
    let row: Vec<_> = row.as_binary_view().iter().flatten().collect();
    assert_eq!(row, vec![&[1u8, 2][..], &[2, 1][..]]);

    let values = FixedSizeBinaryArray::try_from_iter([[2u8, 1], [1, 2]].iter()).unwrap();
    let list = sorted(&[lists(vec![2], Arc::new(values), vec![true])]);
    let row = list.value(0);
    let row: Vec<_> = row.as_fixed_size_binary().iter().flatten().collect();
    assert_eq!(row, vec![&[1u8, 2][..], &[2, 1][..]]);
}

#[test]
fn sorts_booleans_floats_and_times() {
    let values = BooleanArray::from(vec![Some(true), None, Some(false)]);
    let list = sorted(&[lists(vec![3], Arc::new(values), vec![true])]);
    let row = list.value(0);
    let row: Vec<_> = row.as_boolean().iter().collect();
    assert_eq!(row, vec![None, Some(false), Some(true)]);

    let values = Float64Array::from(vec![f64::NAN, 0.0, -0.0, f64::NEG_INFINITY, 1.5, -f64::NAN]);
    let list = sorted(&[lists(vec![6], Arc::new(values), vec![true])]);
    let row = list.value(0);
    let bits: Vec<u64> = row
        .as_primitive::<arrow::datatypes::Float64Type>()
        .values()
        .iter()
        .map(|n| n.to_bits())
        .collect();
    let expected: Vec<u64> = [-f64::NAN, f64::NEG_INFINITY, -0.0, 0.0, 1.5, f64::NAN]
        .iter()
        .map(|n| n.to_bits())
        .collect();
    assert_eq!(bits, expected);

    let values = TimestampSecondArray::from(vec![5, -5]).with_timezone("UTC");
    let kind = values.data_type().clone();
    let list = sorted(&[lists(vec![2], Arc::new(values), vec![true])]);
    assert_eq!(list.value_type(), kind);
    let row = list.value(0);
    let row = row.as_primitive::<arrow::datatypes::TimestampSecondType>();
    assert_eq!(row.values().to_vec(), vec![-5, 5]);
}

#[test]
fn sorts_dictionaries_that_rows_share() {
    let keys = arrow::array::Int8Array::from(vec![
        Some(0), Some(1), None, Some(2), Some(1), Some(0),
    ]);
    let numbers: Vec<i64> = (0..100).map(|n| 100 - n).collect();
    let values = DictionaryArray::<Int8Type>::new(keys, Arc::new(Int64Array::from(numbers)));
    let column = lists(vec![3, 3], Arc::new(values), vec![true, true]);
    let list = sorted(&[column]);
    let row = |i: usize| -> Vec<Option<i64>> {
        let row = list.value(i);
        let row = row.as_dictionary::<Int8Type>();
        let values = row.values().as_primitive::<arrow::datatypes::Int64Type>();
        row.keys().iter().map(|k| k.map(|k| values.value(k as usize))).collect()
    };
    assert_eq!(row(0), vec![None, Some(99), Some(100)]);
    assert_eq!(row(1), vec![Some(98), Some(99), Some(100)]);
}

#[test]
fn sorts_nulls_of_a_dictionary_as_nulls() {
    let keys = Int32Array::from(vec![Some(1), Some(0), None, Some(2)]);
    let words = StringArray::from(vec![None, Some("b"), Some("a")]);
    let values = DictionaryArray::<Int32Type>::new(keys, Arc::new(words));
    let column = lists(vec![4], Arc::new(values), vec![true]);
    let list = sorted(&[column, word("DESC"), word("NULLS LAST")]);
    let row = list.value(0);
    let row = row.as_dictionary::<Int32Type>();
    let row = row.downcast_dict::<StringArray>().unwrap();
    let row: Vec<Option<&str>> = row.into_iter().collect();
    assert_eq!(row, vec![Some("b"), Some("a"), None, None]);
}

#[test]
fn sorts_lists_of_lists() {
    let inner = ListArray::from_iter_primitive::<Int32Type, _, _>(vec![
        Some(vec![Some(1), Some(2)]),
        Some(vec![Some(1)]),
        None,
        Some(vec![None, Some(5)]),
        Some(vec![]),
    ]);
    let column = lists(vec![5], Arc::new(inner), vec![true]);
    let up = sorted(&[column.clone()]);
    let up = rows(up.value(0).as_list::<i32>());
    assert_eq!(
        up,
        vec![
            None,
            Some(vec![]),
            Some(vec![None, Some(5)]),
            Some(vec![Some(1)]),
            Some(vec![Some(1), Some(2)]),
        ]
    );
    let mut down = rows(sorted(&[column, word("DESC"), word("NULLS LAST")]).value(0).as_list());
    down.reverse();
    assert_eq!(down, up);
}

#[test]
fn sorts_lists_of_fixed_size_lists() {
    let inner = FixedSizeListArray::from_iter_primitive::<Int32Type, _, _>(
        vec![some(&[2, 1]), None, some(&[1, 9]), some(&[0, 0])],
        2,
    );
    let column = lists(vec![3, 1], Arc::new(inner), vec![true, true]);
    let list = sorted(&[column]);
    let first = list.value(0);
    let first = first.as_fixed_size_list();
    assert!(first.is_null(0));
    assert_eq!(first.value(1).as_primitive::<Int32Type>().values().to_vec(), vec![1, 9]);
    assert_eq!(first.value(2).as_primitive::<Int32Type>().values().to_vec(), vec![2, 1]);
    assert_eq!(list.value(1).len(), 1);
}

#[test]
fn sorts_one_run_end_encoded_list() {
    let ends = Int32Array::from(vec![2, 3, 5]);
    let runs = Int32Array::from(vec![7, 9, 8]);
    let values = RunArray::<Int32Type>::try_new(&ends, &runs).unwrap();
    let two = lists(vec![2, 3], Arc::new(values.clone()), vec![true, true]);
    assert!(checked_array_sort(&[two]).is_none());
    let column = lists(vec![0, 5], Arc::new(values), vec![false, true]);
    let checked = checked_array_sort(&[column.clone()]).expect("within limits").unwrap();
    let list = list(&array_sort_inner(&[column]).unwrap());
    assert_eq!(list.len(), checked.0.len());
    assert!(list.is_null(0));
    let row = list.value(1);
    let row = row.as_any().downcast_ref::<RunArray<Int32Type>>().unwrap();
    let row: Vec<Option<i32>> = row.downcast::<Int32Array>().unwrap().into_iter().collect();
    assert_eq!(row, vec![Some(7), Some(7), Some(8), Some(8), Some(9)]);
}

#[test]
fn sorts_a_slice_of_a_column() {
    let column = list(&ints(vec![some(&[9]), some(&[3, 2]), None, some(&[8, 7])]));
    let list = sorted(&[any(column.slice(1, 3))]);
    assert_eq!(rows(&list), vec![some(&[2, 3]), None, some(&[7, 8])]);
    let list = sorted(&[any(column.slice(1, 2))]);
    assert_eq!(rows(&list), vec![some(&[2, 3]), None]);
}

#[test]
fn ignores_what_lies_under_null_rows() {
    let values: ArrayRef = Arc::new(Int32Array::from(vec![3, 2, 1, 6, 5]));
    let column = lists(vec![2, 1, 2], values, vec![true, false, true]);
    let list = sorted(&[column]);
    assert_eq!(rows(&list), vec![some(&[2, 3]), None, some(&[5, 6])]);
    assert_eq!(list.values().len(), 4);
}

#[test]
fn sorting_twice_changes_nothing() {
    let column = ints(vec![Some(vec![Some(2), None, Some(1)]), None, some(&[5, 4, 4])]);
    for direction in ["ASC", "DESC"] {
        for nulls in ["NULLS FIRST", "NULLS LAST"] {
            let once = sorted(&[column.clone(), word(direction), word(nulls)]);
            let twice = sorted(&[any(once.clone()), word(direction), word(nulls)]);
            assert_eq!(once, twice);
            assert_eq!(once.data_type(), twice.data_type());
        }
    }
}

#[test]
fn the_opposite_order_reverses_every_row() {
    let column = ints(vec![Some(vec![Some(2), None, Some(1)]), None, some(&[5, 4, 4])]);
    let up = rows(&sorted(&[column.clone(), word("ASC"), word("NULLS FIRST")]));
    let mut down = rows(&sorted(&[column, word("DESC"), word("NULLS LAST")]));
    for row in down.iter_mut().flatten() {
        row.reverse();
    }
    assert_eq!(up, down);
}

#[test]
fn missing_modifiers_have_defaults() {
    let column = ints(vec![Some(vec![Some(2), None, Some(1)])]);
    let none = sorted(&[column.clone()]);
    let one = sorted(&[column.clone(), word("ASC")]);
    let two = sorted(&[column.clone(), word("ASC"), word("NULLS FIRST")]);
    assert_eq!(none, one);
    assert_eq!(none, two);
    let one = sorted(&[column.clone(), word("DESC")]);
    let two = sorted(&[column, word("DESC"), word("NULLS FIRST")]);
    assert_eq!(one, two);
}

#[test]
fn the_order_of_the_input_does_not_matter() {
    let some_order = ints(vec![Some(vec![Some(2), None, Some(1), Some(2)])]);
    let other_order = ints(vec![Some(vec![Some(2), Some(1), Some(2), None])]);
    for direction in ["ASC", "DESC"] {
        assert_eq!(
            sorted(&[some_order.clone(), word(direction)]),
            sorted(&[other_order.clone(), word(direction)])
        );
    }
}

#[test]
fn the_checked_function_gives_the_same() {
    let column = ints(vec![Some(vec![Some(2), None, Some(1)]), None]);
    let args = [column.clone(), word("DESC"), word("NULLS LAST")];
    let checked = checked_array_sort(&args).expect("within limits").unwrap();
    assert_eq!(&checked.0, &array_sort_inner(&args).unwrap().0);
    assert!(matches!(checked_array_sort(&[]), Some(Err(ArraySortError::ArgumentCount))));
    let empty = any(StringArray::from(Vec::<&str>::new()));
    assert!(checked_array_sort(&[column.clone(), empty.clone()]).is_none());
    assert!(checked_array_sort(&[column.clone(), word("ASC"), empty.clone()]).is_none());
    let number = any(Int32Array::from(vec![1]));
    assert!(matches!(
        checked_array_sort(&[column, number, empty]),
        Some(Err(ArraySortError::NotAStringArray))
    ));
}

#[test]
fn makes_a_column_of_rows() {
    let rows = vec![
        Some(any(Int32Array::from(vec![Some(3), None]))),
        None,
        Some(any(Int32Array::from(vec![1]))),
    ];
    let made = list(&list_from_rows(DataType::Int32, &rows).unwrap());
    let expected = ints(vec![Some(vec![Some(3), None]), None, some(&[1])]);
    assert_eq!(made, list(&expected));
    let none = vec![None, None];
    assert!(matches!(
        list_from_rows(DataType::Int32, &none),
        Err(ArraySortError::Compute(_))
    ));
}
