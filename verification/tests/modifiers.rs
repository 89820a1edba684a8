use array_sort::arguments::sort_options;
use array_sort::arrays::AnyArray;
use array_sort::error::ArraySortError;
use array_sort::options::{
    order_desc, order_nulls_first, read_direction, read_null_placement, SortOptions,
};

use arrow::array::{Int32Array, StringArray};
use std::sync::Arc;

fn word(text: &str) -> AnyArray {
    AnyArray(Arc::new(StringArray::from(vec![text])))
}

#[test]
fn directions_in_any_case() {
    for text in ["DESC", "desc", "Desc", "dEsC"] {
        assert!(matches!(order_desc(text), Ok(true)));
    }
    for text in ["ASC", "asc", "aSc"] {
        assert!(matches!(order_desc(text), Ok(false)));
    }
    for text in ["", " DESC", "DESC ", "DESCENDING", "NULLS FIRST"] {
        assert!(matches!(order_desc(text), Err(ArraySortError::Direction)));
    }
}

#[test]
fn null_placements_in_any_case() {
    for text in ["NULLS FIRST", "nulls first", "Nulls First"] {
        assert!(matches!(order_nulls_first(text), Ok(true)));
    }
    for text in ["NULLS LAST", "nulls last", "nuLLs lasT"] {
        assert!(matches!(order_nulls_first(text), Ok(false)));
    }
    for text in ["", "FIRST", "NULLS  FIRST", "NULLS", "ASC"] {
        assert!(matches!(order_nulls_first(text), Err(ArraySortError::NullPlacement)));
    }
}

#[test]
fn uppercase_is_that_of_unicode() {
    assert!(matches!(order_desc("de\u{17f}c"), Ok(true)));
    assert!(matches!(order_desc("a\u{df}c"), Err(ArraySortError::Direction)));
    assert!(matches!(order_nulls_first("null\u{17f} \u{fb01}rst"), Ok(true)));
}

#[test]
fn uppercase_texts_are_read_as_they_are() {
    assert!(matches!(read_direction(&"DESC".to_string()), Ok(true)));
    assert!(matches!(read_direction(&"ASC".to_string()), Ok(false)));
    assert!(matches!(read_direction(&"asc".to_string()), Err(ArraySortError::Direction)));
    assert!(matches!(read_null_placement(&"NULLS FIRST".to_string()), Ok(true)));
    assert!(matches!(read_null_placement(&"NULLS LAST".to_string()), Ok(false)));
    assert!(matches!(
        read_null_placement(&"nulls last".to_string()),
        Err(ArraySortError::NullPlacement)
    ));
}

#[test]
fn options_of_arguments() {
    let list = AnyArray(Arc::new(Int32Array::from(vec![1])));
    assert_eq!(sort_options(&[list.clone()]).unwrap(), None);
    assert_eq!(
        sort_options(&[list.clone(), word("desc")]).unwrap(),
        Some(SortOptions { descending: true, nulls_first: true })
    );
    assert_eq!(
        sort_options(&[list.clone(), word("asc"), word("nulls last")]).unwrap(),
        Some(SortOptions { descending: false, nulls_first: false })
    );
    assert!(matches!(sort_options(&[]), Err(ArraySortError::ArgumentCount)));
    assert!(matches!(
        sort_options(&[list.clone(), list]),
        Err(ArraySortError::NotAStringArray)
    ));
}
