//! What can go wrong.

use vstd::prelude::*;

verus! {

/// The error of an Arrow kernel.
#[verifier::external_type_specification]
#[verifier::external_body]
pub struct ExArrowError(arrow_schema::ArrowError);

/// Why `array_sort` gave no array.
#[derive(Debug)]
pub enum ArraySortError {
    /// There are no arguments, or more than three.
    ArgumentCount,
    /// A modifier is not an array of strings.
    NotAStringArray,
    /// The first argument is not a list array.
    NotAListArray,
    /// The second argument names no direction.
    Direction,
    /// The third argument names no place for the nulls.
    NullPlacement,
    /// The function has no result type for an argument of this type.
    ArgumentType,
    /// An Arrow kernel failed.
    Compute(arrow_schema::ArrowError),
}

/// The text of an error that the function itself raises.
pub open spec fn error_text(e: ArraySortError) -> Option<Seq<char>> {
    match e {
        ArraySortError::ArgumentCount => Some("array_sort expects one to three arguments"@),
        ArraySortError::Direction => Some(
            "the second parameter of array_sort expects DESC or ASC"@,
        ),
        ArraySortError::NullPlacement => Some(
            "the third parameter of array_sort expects NULLS FIRST or NULLS LAST"@,
        ),
        ArraySortError::ArgumentType => Some(
            "Not reachable, data_type should be List, LargeList or FixedSizeList"@,
        ),
        _ => None,
    }
}

impl ArraySortError {
    /// The text of an error that the function itself raises. A failed cast and a failed kernel
    /// have none.
    pub fn message(&self) -> (text: Option<&'static str>)
        ensures
            match text {
                Some(t) => error_text(*self) == Some(t@),
                None => error_text(*self) is None,
            },
    {
        match self {
            ArraySortError::ArgumentCount => Some("array_sort expects one to three arguments"),
            ArraySortError::Direction => Some(
                "the second parameter of array_sort expects DESC or ASC",
            ),
            ArraySortError::NullPlacement => Some(
                "the third parameter of array_sort expects NULLS FIRST or NULLS LAST",
            ),
            ArraySortError::ArgumentType => Some(
                "Not reachable, data_type should be List, LargeList or FixedSizeList",
            ),
            _ => None,
        }
    }
}

} // verus!
