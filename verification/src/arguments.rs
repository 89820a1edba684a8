//! The arguments of `array_sort` that say in what order to sort.

use crate::arrays;
use crate::arrays::{is_string_array, text_at, AnyArray};
use crate::error::ArraySortError;
use crate::options;
use crate::options::{order_desc, order_nulls_first, SortOptions};
use crate::text;
use vstd::prelude::*;

verus! {

/// A modifier array that is read has a slot to read: a string array among the second and the
/// third argument is not empty. (The third is read only where the second is a string array.)
pub open spec fn has_modifiers(args: Seq<AnyArray>) -> bool {
    let second = arrays::text_slots(args[1]);
    let third = arrays::text_slots(args[2]);
    &&& (args.len() == 2 || args.len() == 3) && second is Some ==> second->0.len() > 0
    &&& args.len() == 3 && second is Some && third is Some ==> third->0.len() > 0
}

/// The order that the arguments ask for, where `upper` puts their modifiers in uppercase.
pub open spec fn options_by(
    args: Seq<AnyArray>,
    upper: spec_fn(Seq<char>) -> Seq<char>,
) -> Result<Option<SortOptions>, ArraySortError> {
    if args.len() == 0 || args.len() > 3 {
        Err(ArraySortError::ArgumentCount)
    } else if args.len() == 1 {
        Ok(None)
    } else if arrays::text_slots(args[1]) is None {
        Err(ArraySortError::NotAStringArray)
    } else if args.len() == 3 && arrays::text_slots(args[2]) is None {
        Err(ArraySortError::NotAStringArray)
    } else {
        match options::direction(upper(arrays::text_slots(args[1])->0[0])) {
            Err(e) => Err(e),
            Ok(descending) => if args.len() == 2 {
                Ok(Some(SortOptions { descending, nulls_first: true }))
            } else {
                match options::null_placement(upper(arrays::text_slots(args[2])->0[0])) {
                    Err(e) => Err(e),
                    Ok(nulls_first) => Ok(Some(SortOptions { descending, nulls_first })),
                }
            },
        }
    }
}

/// The order that the arguments ask for: none, or a direction in the second and a place for the
/// nulls in the third. Nulls come first where the third is missing. Of each modifier array the
/// first slot counts.
pub open spec fn requested_options(args: Seq<AnyArray>) -> Result<
    Option<SortOptions>,
    ArraySortError,
> {
    options_by(args, |s: Seq<char>| text::uppercase(s))
}

/// The modifiers are ASCII texts.
pub open spec fn has_ascii_modifiers(args: Seq<AnyArray>) -> bool {
    forall|k: int|
        1 <= k < args.len() && arrays::text_slots(#[trigger] args[k]) is Some
            ==> vstd::utf8::is_ascii_chars(arrays::text_slots(args[k])->0[0])
}

/// Reads the order that the arguments ask for.
pub fn sort_options(args: &[AnyArray]) -> (r: Result<Option<SortOptions>, ArraySortError>)
    requires
        has_modifiers(args@),
    ensures
        r == requested_options(args@),
        has_ascii_modifiers(args@) ==> r == options_by(
            args@,
            |s: Seq<char>| text::ascii_uppercase(s),
        ),
{
    if args.len() == 0 || args.len() > 3 {
        return Err(ArraySortError::ArgumentCount);
    }
    if args.len() == 1 {
        return Ok(None);
    }
    if !is_string_array(&args[1]) {
        return Err(ArraySortError::NotAStringArray);
    }
    let direction = text_at(&args[1], 0);
    if args.len() == 2 {
        return match order_desc(direction.as_str()) {
            Ok(descending) => Ok(Some(SortOptions { descending, nulls_first: true })),
            Err(e) => Err(e),
        };
    }
    if !is_string_array(&args[2]) {
        return Err(ArraySortError::NotAStringArray);
    }
    let placement = text_at(&args[2], 0);
    match order_desc(direction.as_str()) {
        Ok(descending) => match order_nulls_first(placement.as_str()) {
            Ok(nulls_first) => Ok(Some(SortOptions { descending, nulls_first })),
            Err(e) => Err(e),
        },
        Err(e) => Err(e),
    }
}

} // verus!
