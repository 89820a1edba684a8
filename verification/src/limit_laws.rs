//! Which arguments `array_sort` takes: that it refuses no more than Arrow's functions do.

use crate::arguments;
use crate::arrays;
use crate::arrays::{AnyArray, IntegerType, TypeClass};
use crate::checked::checked_array_sort;
use crate::error::ArraySortError;
use crate::laws;
use crate::option_laws::has_slots;
use crate::order_laws::has_good_modifiers;
use crate::rows;
use crate::sort;
use crate::sort::array_sort_inner;
use arrow_schema::DataType;
use vstd::prelude::*;

verus! {

/// `array_sort` takes `args`, and the test of the limits lets them through.
pub open spec fn is_taken(args: &[AnyArray]) -> bool {
    &&& call_requires(array_sort_inner, (args,))
    &&& forall|r: Option<Result<AnyArray, ArraySortError>>| #[trigger]
        call_ensures(checked_array_sort, (args,), r) ==> r is Some
}

/// Any arguments may be tested.
pub proof fn law_any_arguments_can_be_tested(args: &[AnyArray])
    ensures
        call_requires(checked_array_sort, (args,)),
{
}

/// A modifier that is read and has no slot to read is refused.
pub proof fn law_modifiers_without_slots_are_refused(
    args: &[AnyArray],
    r: Option<Result<AnyArray, ArraySortError>>,
)
    requires
        call_ensures(checked_array_sort, (args,), r),
        !has_slots(args@),
    ensures
        r is None,
{
}

/// The test of the limits does not change what comes out: what passes it is what the function
/// itself may give.
pub proof fn law_test_does_not_change_the_result(
    args: &[AnyArray],
    r: Option<Result<AnyArray, ArraySortError>>,
    direct: Result<AnyArray, ArraySortError>,
)
    requires
        call_ensures(checked_array_sort, (args,), r),
        call_ensures(array_sort_inner, (args,), direct),
        r is Some,
    ensures
        r->0 is Ok == direct is Ok,
        direct is Ok ==> {
            &&& arrays::array_type(r->0->Ok_0) == arrays::array_type(direct->Ok_0)
            &&& arrays::array_items(r->0->Ok_0) == arrays::array_items(direct->Ok_0)
            &&& arrays::list_parts(r->0->Ok_0) == arrays::list_parts(direct->Ok_0)
        },
        direct is Err && !(direct->Err_0 is Compute) ==> r->0->Err_0 == direct->Err_0,
{
    laws::law_result_is_determined(args@, r->0, direct);
}

/// Arguments without good modifiers are taken, whatever the first is.
pub proof fn law_wrong_modifiers_are_taken(args: &[AnyArray])
    requires
        has_slots(args@),
        !has_good_modifiers(args@),
    ensures
        is_taken(args),
{
}

/// A first argument that is not a list array is taken.
pub proof fn law_other_arrays_are_taken(args: &[AnyArray])
    requires
        has_slots(args@),
        arrays::list_rows(args@[0]) is None,
    ensures
        is_taken(args),
{
}

/// Row `i` of a list array is a list.
pub open spec fn is_row(list: AnyArray, i: int) -> bool {
    0 <= i < arrays::list_rows(list)->0.len() && arrays::list_rows(list)->0[i] is Some
}

/// The list in row `i` of a list array.
pub open spec fn row(list: AnyArray, i: int) -> AnyArray {
    arrays::list_rows(list)->0[i]->0
}

/// A list array has no more than one list.
pub open spec fn has_at_most_one_list(list: AnyArray) -> bool {
    forall|i: int, j: int| #[trigger] is_row(list, i) && #[trigger] is_row(list, j) ==> i == j
}

/// Rows of which no more than one is not null hold no more than one array.
pub(crate) proof fn lemma_one_list(rows: Seq<Option<AnyArray>>)
    requires
        forall|i: int, j: int|
            0 <= i < rows.len() && 0 <= j < rows.len() && (#[trigger] rows[i]) is Some && (
            #[trigger] rows[j]) is Some ==> i == j,
    ensures
        rows::present(rows).len() <= 1,
    decreases rows.len(),
{
    if rows.len() > 0 {
        let front = rows.drop_last();
        assert forall|i: int, j: int|
            0 <= i < front.len() && 0 <= j < front.len() && (#[trigger] front[i]) is Some && (
            #[trigger] front[j]) is Some implies i == j by {
            assert(rows[i] is Some && rows[j] is Some);
        }
        lemma_one_list(front);
        if rows.last() is Some && rows::present(front).len() > 0 {
            let k = rows::lemma_present_place(front, 0);
            assert(rows[k] is Some);
            assert(rows[rows.len() - 1] is Some);
        }
    }
}

/// Where every list can be sorted, and several have room, the lists are within the limits.
pub(crate) proof fn lemma_sortable_rows(list: AnyArray)
    requires
        arrays::is_list(list),
        forall|i: int| #[trigger] is_row(list, i) ==> arrays::can_sort(row(list, i)),
        !has_at_most_one_list(list) ==> {
            let item = arrays::item_type(list);
            &&& !(arrays::type_class(item) is RunEndEncoded)
            &&& arrays::is_sortable(item) ==> arrays::has_room(
                rows::present(arrays::list_rows(list)->0),
                item,
            )
        },
    ensures
        sort::has_sortable_rows(list),
{
    let all = arrays::list_rows(list)->0;
    let lists = rows::present(all);
    assert forall|k: int| 0 <= k < lists.len() implies arrays::can_sort(#[trigger] lists[k]) by {
        let i = rows::lemma_present_place(all, k);
        assert(is_row(list, i));
    }
    if has_at_most_one_list(list) {
        assert forall|i: int, j: int|
            0 <= i < all.len() && 0 <= j < all.len() && (#[trigger] all[i]) is Some && (
            #[trigger] all[j]) is Some implies i == j by {
            assert(is_row(list, i) && is_row(list, j));
        }
        lemma_one_list(all);
    }
}

/// Where every list can be sorted, and several have room, the arguments are taken.
proof fn lemma_taken(args: &[AnyArray])
    requires
        has_slots(args@),
        arrays::is_list(args@[0]),
        forall|i: int| #[trigger] is_row(args@[0], i) ==> arrays::can_sort(row(args@[0], i)),
        !has_at_most_one_list(args@[0]) ==> {
            let item = arrays::item_type(args@[0]);
            &&& !(arrays::type_class(item) is RunEndEncoded)
            &&& arrays::is_sortable(item) ==> arrays::has_room(
                rows::present(arrays::list_rows(args@[0])->0),
                item,
            )
        },
    ensures
        is_taken(args),
{
    lemma_sortable_rows(args@[0]);
    assert(arguments::has_modifiers(args@));
    assert(sort::is_within_limits(args@));
}

/// What is known of every list of a list array.
proof fn lemma_row(list: AnyArray, i: int)
    requires
        arrays::is_list(list),
        is_row(list, i),
    ensures
        arrays::array_type(row(list, i)) == arrays::item_type(list),
        arrays::array_items(row(list, i)).len() <= i32::MAX,
{
    rows::lemma_list_items(list);
    rows::lemma_row_length(arrays::list_rows(list)->0, i);
    let slot = arrays::list_rows(list)->0[i];
}

/// An array of numbers, byte strings, booleans or views, or one that Arrow cannot sort and that is
/// not run-end encoded, can be handed to Arrow's sort whatever it holds. Of fixed-size binaries
/// the bytes up to the last value that is not null are to be counted with 31 bits, and of lists
/// and dictionaries the slots below with 32.
pub proof fn law_what_can_be_sorted(a: AnyArray)
    requires
        arrays::array_items(a).len() <= u32::MAX,
    ensures
        match arrays::type_class(arrays::array_type(a)) {
            TypeClass::Primitive | TypeClass::Bytes(_) | TypeClass::Boolean | TypeClass::View => {
                arrays::can_sort(a)
            },
            TypeClass::Null | TypeClass::Other => arrays::can_sort(a),
            TypeClass::FixedSizeBinary(width) => (forall|p: int|
                0 <= p < arrays::array_items(a).len() && !(#[trigger] arrays::array_items(
                    a,
                )[p] is Null) ==> (p + 1) * width <= i32::MAX) ==> arrays::can_sort(a),
            TypeClass::List(item) | TypeClass::LargeList(item) | TypeClass::FixedSizeList(
                item,
                _,
            ) | TypeClass::Dictionary(_, item) => {
                &&& !(arrays::type_class(item) is Primitive) && !(arrays::type_class(
                    item,
                ) is Bytes) ==> arrays::can_sort(a)
                &&& (arrays::array_layout(a).child matches Some(child) && arrays::array_items(
                    child,
                ).len() <= u32::MAX) ==> arrays::can_sort(a)
            },
            TypeClass::RunEndEncoded(_) => true,
        },
{
}

/// A run-end encoded array can be handed to Arrow's sort if Arrow can sort its values, and they
/// can be handed to it; and if its runs ascend and cover its slots. One without slots needs no
/// more than a first run that it does not start behind.
pub proof fn law_what_runs_can_be_sorted(a: AnyArray, values: DataType, child: AnyArray)
    requires
        arrays::array_items(a).len() <= u32::MAX,
        arrays::type_class(arrays::array_type(a)) == TypeClass::RunEndEncoded(values),
        decreases_to!(arrays::array_type(a) => values),
        arrays::array_layout(a).child == Some(child),
        arrays::array_type(child) == values,
        arrays::array_items(child).len() <= u32::MAX,
        arrays::is_sortable(values),
        arrays::can_sort(child),
        ({
            let ends = arrays::array_layout(a).run_ends;
            let start = arrays::array_layout(a).offset;
            &&& ends.len() > 0
            &&& arrays::array_items(child).len() > 0
            &&& if arrays::array_items(a).len() == 0 {
                start <= ends[0]
            } else {
                &&& ends.len() <= arrays::array_items(child).len()
                &&& ends[0] > 0
                &&& forall|i: int, j: int|
                    0 <= i < j < ends.len() ==> #[trigger] ends[i] < #[trigger] ends[j]
                &&& start + arrays::array_items(a).len() <= ends[ends.len() - 1]
            }
        }),
    ensures
        arrays::can_sort(a),
{
}

/// Lists of numbers, byte strings or booleans are taken, however many and however long they are;
/// so are lists of nulls, and lists of lists or dictionaries of what has no order.
pub proof fn law_lists_without_limits_are_taken(args: &[AnyArray])
    requires
        has_slots(args@),
        arrays::is_list(args@[0]),
        match arrays::type_class(arrays::item_type(args@[0])) {
            TypeClass::Primitive | TypeClass::Bytes(_) | TypeClass::Boolean => true,
            TypeClass::Null | TypeClass::Other => true,
            TypeClass::List(item) | TypeClass::LargeList(item) | TypeClass::FixedSizeList(
                item,
                _,
            ) | TypeClass::Dictionary(_, item) => !(arrays::type_class(item) is Primitive) && !(
            arrays::type_class(item) is Bytes),
            _ => false,
        },
    ensures
        is_taken(args),
{
    assert forall|i: int| #[trigger] is_row(args@[0], i) implies arrays::can_sort(
        row(args@[0], i),
    ) by {
        lemma_row(args@[0], i);
        law_what_can_be_sorted(row(args@[0], i));
    }
    lemma_taken(args);
}

/// A list array in which all slots are null is taken, whatever its items are.
pub proof fn law_null_lists_are_taken(args: &[AnyArray])
    requires
        has_slots(args@),
        arrays::is_list(args@[0]),
        forall|i: int| !#[trigger] is_row(args@[0], i),
    ensures
        is_taken(args),
{
    lemma_taken(args);
}

/// Several run-end encoded lists are refused: Arrow cannot put them into one array.
pub proof fn law_several_lists_of_runs_are_refused(
    args: &[AnyArray],
    r: Option<Result<AnyArray, ArraySortError>>,
    i: int,
    j: int,
)
    requires
        call_ensures(checked_array_sort, (args,), r),
        has_good_modifiers(args@),
        arrays::is_list(args@[0]),
        arrays::type_class(arrays::item_type(args@[0])) is RunEndEncoded,
        is_row(args@[0], i),
        is_row(args@[0], j),
        i < j,
    ensures
        r is None,
{
    reveal_strlit("DESC");
    reveal_strlit("ASC");
    reveal_strlit("NULLS FIRST");
    reveal_strlit("NULLS LAST");
    let all = arrays::list_rows(args@[0])->0;
    rows::lemma_present_split(all, j);
    let p = rows::lemma_present_index(all.take(j), i);
    let q = rows::lemma_present_index(all.skip(j), 0);
    assert(rows::present(all).len() > 1);
}

/// One list is taken if it can be handed to Arrow's sort, whatever its items are.
pub proof fn law_one_list_is_taken(args: &[AnyArray])
    requires
        has_slots(args@),
        arrays::is_list(args@[0]),
        has_at_most_one_list(args@[0]),
        forall|i: int| #[trigger] is_row(args@[0], i) ==> arrays::can_sort(row(args@[0], i)),
    ensures
        is_taken(args),
{
    lemma_taken(args);
}

/// Lists of fixed-size binaries are taken if the bytes of each, up to the last value that is not
/// null, can be counted with 31 bits.
pub proof fn law_lists_of_fixed_size_binaries_are_taken(args: &[AnyArray], width: i32)
    requires
        has_slots(args@),
        arrays::is_list(args@[0]),
        arrays::type_class(arrays::item_type(args@[0])) == TypeClass::FixedSizeBinary(width),
        forall|i: int, p: int|
            is_row(args@[0], i) && 0 <= p < arrays::array_items(row(args@[0], i)).len() && !(
            #[trigger] arrays::array_items(row(args@[0], i))[p] is Null) ==> (p + 1) * width
                <= i32::MAX,
    ensures
        is_taken(args),
{
    assert forall|i: int| #[trigger] is_row(args@[0], i) implies arrays::can_sort(
        row(args@[0], i),
    ) by {
        lemma_row(args@[0], i);
        law_what_can_be_sorted(row(args@[0], i));
    }
    lemma_taken(args);
}

/// Lists of lists are taken if the items of these can be counted with 32 bits.
pub proof fn law_lists_of_lists_are_taken(args: &[AnyArray])
    requires
        has_slots(args@),
        arrays::is_list(args@[0]),
        match arrays::type_class(arrays::item_type(args@[0])) {
            TypeClass::List(_) | TypeClass::LargeList(_) | TypeClass::FixedSizeList(_, _) => true,
            _ => false,
        },
        forall|i: int| #[trigger]
            is_row(args@[0], i) ==> (arrays::array_layout(row(args@[0], i)).child matches Some(
                child,
            ) && arrays::array_items(child).len() <= u32::MAX),
    ensures
        is_taken(args),
{
    assert forall|i: int| #[trigger] is_row(args@[0], i) implies arrays::can_sort(
        row(args@[0], i),
    ) by {
        lemma_row(args@[0], i);
        law_what_can_be_sorted(row(args@[0], i));
    }
    lemma_taken(args);
}

/// The number of keys from zero on, less one.
pub open spec fn last_key(t: IntegerType) -> int {
    match t {
        IntegerType::Int8 => 0x7f,
        IntegerType::UInt8 => 0xff,
        IntegerType::Int16 => 0x7fff,
        IntegerType::UInt16 => 0xffff,
        IntegerType::Int32 => 0x7fff_ffff,
        IntegerType::UInt32 => 0xffff_ffff,
        IntegerType::Int64 => 0x7fff_ffff_ffff_ffff,
        IntegerType::UInt64 => 0xffff_ffff_ffff_ffff,
    }
}

/// Lists of keys into a dictionary are taken if the values of the dictionary can be counted with
/// 32 bits, and the length of the dictionary is itself a key.
pub proof fn law_lists_of_dictionaries_are_taken(
    args: &[AnyArray],
    key: DataType,
    values: DataType,
    t: IntegerType,
)
    requires
        has_slots(args@),
        arrays::is_list(args@[0]),
        arrays::type_class(arrays::item_type(args@[0])) == TypeClass::Dictionary(key, values),
        arrays::integer_type(key) == Some(t),
        forall|i: int| #[trigger]
            is_row(args@[0], i) ==> (arrays::array_layout(row(args@[0], i)).child matches Some(
                child,
            ) && arrays::array_items(child).len() <= u32::MAX && arrays::array_items(child).len()
                <= last_key(t)),
    ensures
        is_taken(args),
{
    let list = args@[0];
    let all = arrays::list_rows(list)->0;
    let lists = rows::present(all);
    assert forall|i: int| #[trigger] is_row(list, i) implies arrays::can_sort(row(list, i)) by {
        lemma_row(list, i);
        law_what_can_be_sorted(row(list, i));
    }
    assert forall|k: int| 0 <= k < lists.len() implies arrays::has_key_for_length(
        #[trigger] lists[k],
        key,
    ) by {
        let i = rows::lemma_present_place(all, k);
        assert(is_row(list, i));
    }
    lemma_taken(args);
}

/// The data buffers of the rows, counted from row to row.
proof fn lemma_sums(rows: Seq<Option<AnyArray>>, sums: Seq<int>)
    requires
        sums.len() == rows.len() + 1,
        sums[0] == 0,
        forall|i: int|
            0 <= i < rows.len() ==> #[trigger] sums[i + 1] == sums[i] + match rows[i] {
                Some(a) => arrays::array_layout(a).buffers - 1,
                None => 0,
            },
    ensures
        arrays::sum_of(rows::present(rows), arrays::data_buffers()) == sums.last(),
    decreases rows.len(),
{
    if rows.len() > 0 {
        let front = rows.drop_last();
        let part = sums.drop_last();
        assert forall|i: int| 0 <= i < front.len() implies #[trigger] part[i + 1] == part[i]
            + match front[i] {
            Some(a) => arrays::array_layout(a).buffers - 1,
            None => 0,
        } by {
            assert(part[i + 1] == sums[i + 1]);
        }
        lemma_sums(front, part);
        let n = rows.len() - 1;
        assert(sums[n + 1] == sums[n] + match rows[n] {
            Some(a) => arrays::array_layout(a).buffers - 1,
            None => 0,
        });
        if rows.last() is Some {
            assert(rows::present(rows).drop_last() =~= rows::present(front));
        }
    }
}

/// Lists of views are taken if their data buffers can be counted with 32 bits: all buffers but the
/// first of each list. `sums` counts them from row to row.
pub proof fn law_lists_of_views_are_taken(args: &[AnyArray], sums: Seq<int>)
    requires
        has_slots(args@),
        arrays::is_list(args@[0]),
        arrays::type_class(arrays::item_type(args@[0])) is View,
        sums.len() == arrays::list_rows(args@[0])->0.len() + 1,
        sums[0] == 0,
        forall|i: int|
            0 <= i < arrays::list_rows(args@[0])->0.len() ==> #[trigger] sums[i + 1] == sums[i]
                + match arrays::list_rows(args@[0])->0[i] {
                Some(a) => arrays::array_layout(a).buffers - 1,
                None => 0,
            },
        sums.last() <= u32::MAX,
    ensures
        is_taken(args),
{
    assert forall|i: int| #[trigger] is_row(args@[0], i) implies arrays::can_sort(
        row(args@[0], i),
    ) by {
        lemma_row(args@[0], i);
        law_what_can_be_sorted(row(args@[0], i));
    }
    lemma_sums(arrays::list_rows(args@[0])->0, sums);
    lemma_taken(args);
}

} // verus!
