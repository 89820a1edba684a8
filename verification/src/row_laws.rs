//! What it is to sort the rows of a list column, and to make a column of rows.

use crate::arrays;
use crate::arrays::{AnyArray, TypeClass};
use crate::error::ArraySortError;
use crate::limit_laws;
use crate::options::SortOptions;
use crate::order_laws;
use crate::rows;
use crate::rows::list_from_rows;
use crate::sort;
use crate::sort::sort_rows;
use crate::value::Value;
use arrow_schema::DataType;
use vstd::prelude::*;

verus! {

/// The options ask for descending order. Without options the order ascends.
pub open spec fn descends(options: Option<SortOptions>) -> bool {
    options matches Some(o) && o.descending
}

/// The options ask for nulls last. Without options they come first.
pub open spec fn ends_with_nulls(options: Option<SortOptions>) -> bool {
    options matches Some(o) && !o.nulls_first
}

/// Sorting the rows of a column gives a row for each of its slots, none where it is null, and
/// otherwise an array of the same type with the items of the list, each as often, in the order
/// that the options ask for.
pub proof fn law_rows_are_sorted(
    list: &AnyArray,
    options: Option<SortOptions>,
    sorted: Vec<Option<AnyArray>>,
    i: int,
    j: int,
    k: int,
)
    requires
        call_ensures(sort_rows, (list, options), Ok(sorted)),
        0 <= i < arrays::array_items(*list).len(),
    ensures
        sorted@.len() == arrays::array_items(*list).len(),
        match sorted@[i] {
            None => arrays::array_items(*list)[i] is Null,
            Some(row) => {
                let items = arrays::array_items(row);
                &&& arrays::array_items(*list)[i] is List
                &&& items.to_multiset() == arrays::array_items(*list)[i]->List_0.to_multiset()
                &&& arrays::array_type(row) == arrays::item_type(*list)
                &&& 0 <= j < k < items.len() ==> order_laws::may_stand_before(
                    items[j],
                    items[k],
                    descends(options),
                    ends_with_nulls(options),
                )
            },
        },
{
    let values = rows::row_values(sorted@);
    assert(sorted@.len() == values.len());
    let slot = values[i];
    if sorted@[i] is Some {
        let items = arrays::array_items(sorted@[i]->0);
        assert(slot == Value::List(items));
        if 0 <= j < k < items.len() {
            order_laws::lemma_may_stand_before(
                items,
                crate::options::effective(options),
                j,
                k,
            );
        }
    }
}

/// The rows of a column can be sorted where `array_sort` takes the column, and what comes out can
/// be made a column again.
pub proof fn law_sorted_rows_make_a_column(
    list: &AnyArray,
    options: Option<SortOptions>,
    sorted: &Vec<Option<AnyArray>>,
)
    requires
        arrays::is_list(*list),
        call_ensures(sort_rows, (list, options), Ok(*sorted)),
    ensures
        call_requires(list_from_rows, (arrays::item_type(*list), sorted)),
{
}

/// The rows of a column can be sorted if each can be handed to Arrow's sort, and there is no more
/// than one, or they are numbers, byte strings or booleans.
pub proof fn law_rows_that_can_be_sorted(list: &AnyArray, options: Option<SortOptions>)
    requires
        arrays::is_list(*list),
        forall|i: int| #[trigger]
            limit_laws::is_row(*list, i) ==> arrays::can_sort(limit_laws::row(*list, i)),
        limit_laws::has_at_most_one_list(*list) || match arrays::type_class(
            arrays::item_type(*list),
        ) {
            TypeClass::Primitive | TypeClass::Bytes(_) | TypeClass::Boolean => true,
            _ => false,
        },
    ensures
        call_requires(sort_rows, (list, options)),
{
    limit_laws::lemma_sortable_rows(*list);
}

/// One row of any type, of up to as many items as 31 bits can count, makes a column.
pub proof fn law_one_row_makes_a_column(item: DataType, rows: &Vec<Option<AnyArray>>, i: int)
    requires
        0 <= i < rows@.len(),
        rows@[i] matches Some(row) && arrays::array_type(row) == item && arrays::array_items(
            row,
        ).len() <= i32::MAX,
        forall|j: int| 0 <= j < rows@.len() && j != i ==> (#[trigger] rows@[j]) is None,
    ensures
        call_requires(list_from_rows, (item, rows)),
{
    limit_laws::lemma_one_list(rows@);
    let k = rows::lemma_present_index(rows@, i);
    let parts = rows::present(rows@);
    assert(parts =~= seq![rows@[i]->0]);
    let lists = arrays::items_of(parts);
    assert(lists =~= Seq::<Seq<Value>>::empty().push(arrays::array_items(rows@[i]->0)));
    Seq::<Seq<Value>>::empty().lemma_flatten_push(arrays::array_items(rows@[i]->0));
}

/// Sorting the rows of a column fails exactly where there is a list and Arrow has no order for
/// its items, and tells the type.
pub proof fn law_rows_without_order(
    list: &AnyArray,
    options: Option<SortOptions>,
    r: Result<Vec<Option<AnyArray>>, ArraySortError>,
)
    requires
        call_ensures(sort_rows, (list, options), r),
    ensures
        r is Err == ((exists|i: int|
            0 <= i < arrays::array_items(*list).len() && #[trigger] arrays::array_items(
                *list,
            )[i] is List) && !arrays::is_sortable(arrays::item_type(*list))),
        r matches Err(e) ==> order_laws::compute_text(Err(e)) is Some && order_laws::tells_type(
            order_laws::compute_text(Err(e))->0,
            arrays::item_type(*list),
        ),
{
    let items = arrays::array_items(*list);
    assert(sort::has_list(items) == exists|i: int|
        0 <= i < items.len() && #[trigger] items[i] is List);
}

/// A column of rows has a slot for each row: null where there is none, and otherwise the list of
/// its items. Its items have the type of the rows, are named `item` and may be null. The rows lie
/// side by side in it.
pub proof fn law_column_of_rows(
    item: DataType,
    rows: &Vec<Option<AnyArray>>,
    column: AnyArray,
    i: int,
)
    requires
        call_ensures(list_from_rows, (item, rows), Ok(column)),
        0 <= i < rows@.len(),
    ensures
        arrays::array_type(column) == arrays::list_type("item"@, item, true),
        arrays::type_class(arrays::array_type(column)) == TypeClass::List(item),
        arrays::list_rows(column) is Some,
        arrays::array_items(column).len() == rows@.len(),
        arrays::array_items(column)[i] == match rows@[i] {
            Some(row) => Value::List(arrays::array_items(row)),
            None => Value::Null,
        },
        ({
            let parts = arrays::list_parts(column);
            &&& parts.offsets.len() == rows@.len() + 1
            &&& parts.offsets[0] == 0
            &&& parts.offsets[i + 1] - parts.offsets[i] == match rows@[i] {
                Some(row) => arrays::array_items(row).len() as int,
                None => 0,
            }
            &&& parts.offsets.last() == parts.values.len()
            &&& rows@[i] matches Some(row) ==> forall|j: int|
                0 <= j < arrays::array_items(row).len() ==> #[trigger] arrays::array_items(row)[j]
                    == parts.values[parts.offsets[i] + j]
            &&& parts.valid is Some
            &&& parts.valid->0.len() == rows@.len()
            &&& parts.valid->0[i] == rows@[i] is Some
        }),
{
    let items = arrays::array_items(column);
    let parts = arrays::list_parts(column);
    let lengths = rows::list_lengths(items);
    assert(items == rows::row_values(rows@));
    assert(lengths.take(0) =~= Seq::<nat>::empty());
    assert(lengths.take(lengths.len() as int) =~= lengths);
    rows::lemma_lists_length(items);
    order_laws::lemma_sum_step(lengths, i);
    assert(parts.offsets[i] == rows::sum(lengths.take(i)));
    assert(parts.offsets[i + 1] == rows::sum(lengths.take(i + 1)));
    if rows@[i] is Some {
        let row = rows@[i]->0;
        assert forall|j: int| 0 <= j < arrays::array_items(row).len() implies
            #[trigger] arrays::array_items(row)[j] == parts.values[parts.offsets[i] + j] by {
            order_laws::lemma_lists_in_place(items, i, j);
        }
    }
}

/// A column cannot be made exactly where there is no row that is not null.
pub proof fn law_column_of_nulls(
    item: DataType,
    rows: &Vec<Option<AnyArray>>,
    r: Result<AnyArray, ArraySortError>,
)
    requires
        call_ensures(list_from_rows, (item, rows), r),
    ensures
        r is Err == (forall|i: int| 0 <= i < rows@.len() ==> (#[trigger] rows@[i]) is None),
        r is Err ==> order_laws::compute_text(r) == Some(
            "concat requires input of at least one array"@,
        ),
{
    if rows::present(rows@).len() > 0 {
        let i = rows::lemma_present_place(rows@, 0);
        assert(rows@[i] is Some);
    }
    if exists|i: int| 0 <= i < rows@.len() && (#[trigger] rows@[i]) is Some {
        let i = choose|i: int| 0 <= i < rows@.len() && (#[trigger] rows@[i]) is Some;
        let k = rows::lemma_present_index(rows@, i);
    }
}

} // verus!
