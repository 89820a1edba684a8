//! `array_sort` for arguments of which nothing is known.

use crate::arguments;
use crate::arrays;
use crate::arrays::{
    array_len, binary_is_null, buffer_count, child_of, classify, integer_type_of, is_list_array,
    is_string_array, list_is_null, list_value, list_value_type, run_ends, run_offset, type_of,
    AnyArray, IntegerType, TypeClass,
};
use crate::arguments::sort_options;
use crate::error::ArraySortError;
use crate::rows;
use crate::sort;
use crate::sort::array_sort_inner;
use crate::text;
use arrow_schema::DataType;
use vstd::prelude::*;

verus! {

/// Whether Arrow can rank the items of a type.
fn rankable(t: &DataType) -> (r: bool)
    ensures
        r == arrays::is_rankable(*t),
{
    matches!(classify(t), TypeClass::Primitive | TypeClass::Bytes(_))
}

/// Whether Arrow can sort arrays of a type.
fn sortable(t: &DataType) -> (r: bool)
    ensures
        r == arrays::is_sortable(*t),
    decreases *t,
{
    match classify(t) {
        TypeClass::Primitive | TypeClass::Bytes(_) | TypeClass::Boolean => true,
        TypeClass::View | TypeClass::FixedSizeBinary(_) => true,
        TypeClass::List(item) => rankable(&item),
        TypeClass::LargeList(item) => rankable(&item),
        TypeClass::FixedSizeList(item, _) => rankable(&item),
        TypeClass::Dictionary(_, values) => rankable(&values),
        TypeClass::RunEndEncoded(values) => sortable(&values),
        TypeClass::Null | TypeClass::Other => false,
    }
}

/// Whether the slots of an array can be counted with 32 bits.
fn short(a: &AnyArray) -> (r: bool)
    ensures
        r == (arrays::array_items(*a).len() <= u32::MAX),
{
    array_len(a) as u64 <= u32::MAX as u64
}

/// Whether the runs of a run-end encoded array ascend, have values, and cover its slots.
fn covering_runs(a: &AnyArray) -> (r: bool)
    requires
        arrays::type_class(arrays::array_type(*a)) is RunEndEncoded,
    ensures
        r == arrays::has_runs(*a),
{
    let ends = run_ends(a);
    let ghost layout = arrays::array_layout(*a);
    let values = child_of(a);
    let start: usize = run_offset(a);
    let count: usize = array_len(a);
    proof {
        assert(layout.run_ends.len() == ends@.len());
        assert forall|k: int| 0 <= k < ends@.len() implies #[trigger] layout.run_ends[k]
            == ends@[k] by {
            assert(ends@.map_values(|n: i64| n as int)[k] == ends@[k]);
        }
    }
    if ends.len() == 0 {
        return false;
    }
    if count == 0 {
        return array_len(&values) > 0 && start as i128 <= ends[0] as i128;
    }
    if ends.len() > array_len(&values) || ends[0] <= 0 {
        return false;
    }
    let mut i: usize = 1;
    while i < ends.len()
        invariant
            layout == arrays::array_layout(*a),
            count > 0,
            count == arrays::array_items(*a).len(),
            layout.run_ends.len() == ends@.len(),
            forall|k: int|
                0 <= k < ends@.len() ==> #[trigger] layout.run_ends[k] == ends@[k],
            1 <= i <= ends@.len(),
            forall|j: int, k: int| 0 <= j < k < i ==> #[trigger] ends@[j] < #[trigger] ends@[k],
        decreases ends@.len() - i,
    {
        if ends[i - 1] >= ends[i] {
            proof {
                assert(layout.run_ends[i - 1] >= layout.run_ends[i as int]);
            }
            return false;
        }
        i = i + 1;
    }
    proof {
        assert forall|j: int, k: int| 0 <= j < k < layout.run_ends.len() implies (
        #[trigger] layout.run_ends[j]) < #[trigger] layout.run_ends[k] by {
            assert(ends@[j] < ends@[k]);
        }
    }
    start as i128 + count as i128 <= ends[ends.len() - 1] as i128
}

/// Whether the bytes of fixed-size binary values up to the last that is not null can be counted
/// with 31 bits.
fn few_bytes(a: &AnyArray, width: i32) -> (r: bool)
    requires
        arrays::type_class(arrays::array_type(*a)) is FixedSizeBinary,
    ensures
        r == arrays::has_few_bytes(*a, width),
{
    let count: usize = array_len(a);
    let mut i: usize = 0;
    while i < count
        invariant
            arrays::type_class(arrays::array_type(*a)) is FixedSizeBinary,
            count == arrays::array_items(*a).len(),
            0 <= i <= count,
            forall|k: int|
                0 <= k < i && !(#[trigger] arrays::array_items(*a)[k] is Null) ==> (k + 1) * width
                    <= i32::MAX,
        decreases count - i,
    {
        let place: i128 = i as i128 + 1;
        proof {
            assert(-0x8000_0000_0000_0000_0000_0000 <= place * width
                <= 0x8000_0000_0000_0000_0000_0000) by (nonlinear_arith)
                requires
                    0 <= place <= 0x1_0000_0000_0000_0000,
                    -0x8000_0000 <= width <= 0x7fff_ffff,
            ;
        }
        if place * width as i128 > i32::MAX as i128 && !binary_is_null(a, i) {
            return false;
        }
        i = i + 1;
    }
    true
}

/// Whether what an array is laid out in is within the limits of a sort.
fn fits(a: &AnyArray) -> (r: bool)
    ensures
        r == arrays::fits_sort(*a),
    decreases arrays::array_type(*a),
{
    let t = type_of(a);
    match classify(&t) {
        TypeClass::FixedSizeBinary(width) => few_bytes(a, width),
        TypeClass::List(_) | TypeClass::LargeList(_) | TypeClass::FixedSizeList(_, _) => short(
            &child_of(a),
        ),
        TypeClass::Dictionary(_, _) => short(&child_of(a)),
        TypeClass::RunEndEncoded(_) => {
            let values = child_of(a);
            covering_runs(a) && short(&values) && fits(&values)
        },
        _ => true,
    }
}

/// The greatest integer of a type.
fn greatest_of(t: IntegerType) -> (r: u64)
    ensures
        r == arrays::greatest(t),
{
    match t {
        IntegerType::Int8 => i8::MAX as u64,
        IntegerType::Int16 => i16::MAX as u64,
        IntegerType::Int32 => i32::MAX as u64,
        IntegerType::Int64 => i64::MAX as u64,
        IntegerType::UInt8 => u8::MAX as u64,
        IntegerType::UInt16 => u16::MAX as u64,
        IntegerType::UInt32 => u32::MAX as u64,
        IntegerType::UInt64 => u64::MAX,
    }
}

/// Whether the lengths of all dictionaries are among the keys of type `key`.
fn keys_for_lengths(lists: &Vec<AnyArray>, key: &DataType) -> (r: bool)
    requires
        forall|k: int|
            0 <= k < lists@.len() ==> arrays::type_class(
                arrays::array_type(#[trigger] lists@[k]),
            ) is Dictionary,
    ensures
        r == forall|k: int|
            0 <= k < lists@.len() ==> arrays::has_key_for_length(#[trigger] lists@[k], *key),
{
    let limit: u64 = match integer_type_of(key) {
        Some(t) => greatest_of(t),
        None => {
            proof {
                if lists@.len() > 0 {
                    assert(!arrays::has_key_for_length(lists@[0], *key));
                }
            }
            return lists.len() == 0;
        },
    };
    let mut i: usize = 0;
    while i < lists.len()
        invariant
            forall|k: int|
                0 <= k < lists@.len() ==> arrays::type_class(
                    arrays::array_type(#[trigger] lists@[k]),
                ) is Dictionary,
            arrays::integer_type(*key) is Some,
            limit == arrays::greatest(arrays::integer_type(*key)->0),
            0 <= i <= lists@.len(),
            forall|k: int| 0 <= k < i ==> arrays::has_key_for_length(#[trigger] lists@[k], *key),
        decreases lists@.len() - i,
    {
        let dictionary = child_of(&lists[i]);
        if array_len(&dictionary) as u64 > limit {
            proof {
                assert(!arrays::has_key_for_length(lists@[i as int], *key));
            }
            return false;
        }
        i = i + 1;
    }
    true
}

/// The first of several view arrays have no more data buffers than all of them.
proof fn lemma_data_buffers(lists: Seq<AnyArray>, i: int)
    requires
        0 <= i <= lists.len(),
        forall|k: int|
            0 <= k < lists.len() ==> arrays::array_layout(#[trigger] lists[k]).buffers > 0,
    ensures
        arrays::sum_of(lists.take(i), arrays::data_buffers()) <= arrays::sum_of(
            lists,
            arrays::data_buffers(),
        ),
    decreases lists.len(),
{
    if i == lists.len() {
        assert(lists.take(i) =~= lists);
    } else {
        let front = lists.drop_last();
        lemma_data_buffers(front, i);
        assert(front.take(i) =~= lists.take(i));
    }
}

/// Whether the data buffers of all views can be counted with 32 bits.
fn few_buffers(lists: &Vec<AnyArray>) -> (r: bool)
    requires
        forall|k: int|
            0 <= k < lists@.len() ==> {
                &&& arrays::type_class(arrays::array_type(#[trigger] lists@[k])) is View
                &&& arrays::array_layout(lists@[k]).buffers > 0
            },
    ensures
        r == (arrays::sum_of(lists@, arrays::data_buffers()) <= u32::MAX),
{
    let mut buffers: u64 = 0;
    let mut i: usize = 0;
    while i < lists.len()
        invariant
            forall|k: int|
                0 <= k < lists@.len() ==> {
                    &&& arrays::type_class(arrays::array_type(#[trigger] lists@[k])) is View
                    &&& arrays::array_layout(lists@[k]).buffers > 0
                },
            0 <= i <= lists@.len(),
            buffers == arrays::sum_of(lists@.take(i as int), arrays::data_buffers()),
            buffers <= u32::MAX,
        decreases lists@.len() - i,
    {
        proof {
            assert(lists@.take(i + 1).drop_last() =~= lists@.take(i as int));
            lemma_data_buffers(lists@, i + 1);
        }
        let more: usize = buffer_count(&lists[i]) - 1;
        if more as u64 > u32::MAX as u64 - buffers {
            return false;
        }
        buffers = buffers + more as u64;
        i = i + 1;
    }
    proof {
        assert(lists@.take(lists@.len() as int) =~= lists@);
    }
    true
}

/// The lists of a list column that are not null.
fn present_rows(list: &AnyArray) -> (r: Vec<AnyArray>)
    requires
        arrays::is_list(*list),
    ensures
        r@ == rows::present(arrays::list_rows(*list)->0),
{
    let ghost rows = arrays::list_rows(*list)->0;
    let count: usize = array_len(list);
    let mut lists: Vec<AnyArray> = Vec::new();
    let mut i: usize = 0;
    proof {
        assert(rows.take(0) =~= Seq::<Option<AnyArray>>::empty());
    }
    while i < count
        invariant
            arrays::is_list(*list),
            rows == arrays::list_rows(*list)->0,
            count == rows.len(),
            0 <= i <= count,
            lists@ == rows::present(rows.take(i as int)),
        decreases count - i,
    {
        proof {
            assert(rows.take(i + 1).drop_last() =~= rows.take(i as int));
        }
        if !list_is_null(list, i) {
            lists.push(list_value(list, i));
        }
        i = i + 1;
    }
    proof {
        assert(rows.take(rows.len() as int) =~= rows);
    }
    lists
}

/// Whether the lists of a column are within the limits of Arrow's functions.
fn sortable_rows(list: &AnyArray) -> (r: bool)
    requires
        arrays::is_list(*list),
    ensures
        r == sort::has_sortable_rows(*list),
{
    let item = list_value_type(list);
    let lists = present_rows(list);
    let ghost rows = arrays::list_rows(*list)->0;
    proof {
        rows::lemma_list_items(*list);
        assert forall|k: int| 0 <= k < lists@.len() implies {
            &&& arrays::array_type(#[trigger] lists@[k]) == item
            &&& arrays::array_items(lists@[k]).len() <= u32::MAX
            &&& arrays::type_class(item) is View ==> arrays::array_layout(lists@[k]).buffers > 0
        } by {
            let i = rows::lemma_present_place(rows, k);
            rows::lemma_row_length(rows, i);
            let row = rows[i];
        }
    }
    let known = sortable(&item);
    if !known {
        let runs = matches!(classify(&item), TypeClass::RunEndEncoded(_));
        if runs && lists.len() > 0 {
            proof {
                assert(!arrays::can_sort(lists@[0]));
            }
            return false;
        }
        return true;
    }
    let mut i: usize = 0;
    while i < lists.len()
        invariant
            lists@ == rows::present(arrays::list_rows(*list)->0),
            item == arrays::item_type(*list),
            arrays::is_sortable(item),
            forall|k: int|
                0 <= k < lists@.len() ==> {
                    &&& arrays::array_type(#[trigger] lists@[k]) == item
                    &&& arrays::array_items(lists@[k]).len() <= u32::MAX
                },
            0 <= i <= lists@.len(),
            forall|k: int| 0 <= k < i ==> arrays::can_sort(#[trigger] lists@[k]),
        decreases lists@.len() - i,
    {
        if !fits(&lists[i]) {
            proof {
                assert(!arrays::can_sort(lists@[i as int]));
            }
            return false;
        }
        i = i + 1;
    }
    if lists.len() <= 1 {
        return true;
    }
    match classify(&item) {
        TypeClass::RunEndEncoded(_) => false,
        TypeClass::View => few_buffers(&lists),
        TypeClass::Dictionary(key, _) => keys_for_lengths(&lists, &key),
        _ => true,
    }
}

/// Whether a modifier array, if it is a string array, has a slot.
fn has_slot(a: &AnyArray) -> (r: bool)
    ensures
        r == (arrays::text_slots(*a) is Some ==> arrays::text_slots(*a)->0.len() > 0),
{
    !is_string_array(a) || array_len(a) > 0
}

/// The SQL function `array_sort(array, desc, nulls_first)` for arguments of which nothing is
/// known: `None` where they are beyond the limits of Arrow's functions.
pub fn checked_array_sort(args: &[AnyArray]) -> (r: Option<Result<AnyArray, ArraySortError>>)
    ensures
        r is Some == sort::is_within_limits(args@),
        r is Some ==> sort::is_array_sort(args@, r->0),
        r is Some && arguments::has_ascii_modifiers(args@) ==> arguments::requested_options(args@)
            == arguments::options_by(args@, |s: Seq<char>| text::ascii_uppercase(s)),
{
    if args.len() == 2 || args.len() == 3 {
        if !has_slot(&args[1]) {
            return None;
        }
    }
    if args.len() == 3 && is_string_array(&args[1]) {
        if !has_slot(&args[2]) {
            return None;
        }
    }
    match sort_options(args) {
        Err(e) => Some(Err(e)),
        Ok(_) => {
            if is_list_array(&args[0]) && !sortable_rows(&args[0]) {
                None
            } else {
                Some(array_sort_inner(args))
            }
        },
    }
}

} // verus!
