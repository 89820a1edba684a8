//! The order in which lists are sorted, and how its textual modifiers are read.

use crate::error::ArraySortError;
use crate::text;
use vstd::prelude::*;

verus! {

/// The order of a sort.
#[derive(Clone, Copy, Debug, PartialEq, Eq, Structural)]
pub struct SortOptions {
    /// Greater values come first.
    pub descending: bool,
    /// Nulls come before all other values.
    pub nulls_first: bool,
}

/// The order of a sort for which no options are given: ascending, nulls first.
pub open spec fn effective(options: Option<SortOptions>) -> SortOptions {
    match options {
        Some(o) => o,
        None => SortOptions { descending: false, nulls_first: true },
    }
}

/// What a direction means, once it is in uppercase: whether greater values come first.
pub open spec fn direction(upper: Seq<char>) -> Result<bool, ArraySortError> {
    if upper == "DESC"@ {
        Ok(true)
    } else if upper == "ASC"@ {
        Ok(false)
    } else {
        Err(ArraySortError::Direction)
    }
}

/// What a place for the nulls means, once it is in uppercase: whether they come first.
pub open spec fn null_placement(upper: Seq<char>) -> Result<bool, ArraySortError> {
    if upper == "NULLS FIRST"@ {
        Ok(true)
    } else if upper == "NULLS LAST"@ {
        Ok(false)
    } else {
        Err(ArraySortError::NullPlacement)
    }
}

/// Reads a direction that is in uppercase.
pub fn read_direction(upper: &String) -> (r: Result<bool, ArraySortError>)
    ensures
        r == direction(upper@),
{
    if *upper == "DESC".to_owned() {
        Ok(true)
    } else if *upper == "ASC".to_owned() {
        Ok(false)
    } else {
        Err(ArraySortError::Direction)
    }
}

/// Reads a place for the nulls that is in uppercase.
pub fn read_null_placement(upper: &String) -> (r: Result<bool, ArraySortError>)
    ensures
        r == null_placement(upper@),
{
    if *upper == "NULLS FIRST".to_owned() {
        Ok(true)
    } else if *upper == "NULLS LAST".to_owned() {
        Ok(false)
    } else {
        Err(ArraySortError::NullPlacement)
    }
}

/// Reads the direction `ASC` or `DESC`, in any mixture of cases: whether greater values come
/// first.
pub fn order_desc(modifier: &str) -> (r: Result<bool, ArraySortError>)
    ensures
        r == direction(text::uppercase(modifier@)),
        modifier.is_ascii() ==> r == direction(text::ascii_uppercase(modifier@)),
{
    let upper = text::to_uppercase(modifier);
    read_direction(&upper)
}

/// Reads the place `NULLS FIRST` or `NULLS LAST`, in any mixture of cases: whether nulls come
/// first.
pub fn order_nulls_first(modifier: &str) -> (r: Result<bool, ArraySortError>)
    ensures
        r == null_placement(text::uppercase(modifier@)),
        modifier.is_ascii() ==> r == null_placement(text::ascii_uppercase(modifier@)),
{
    let upper = text::to_uppercase(modifier);
    read_null_placement(&upper)
}

} // verus!
