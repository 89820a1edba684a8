//! The function `array_sort`.

use crate::arguments;
use crate::arguments::sort_options;
use crate::arrays;
use crate::arrays::{
    array_len, is_list_array, list_is_null, list_value, list_value_type, sort, AnyArray, TypeClass,
};
use crate::error::ArraySortError;
use crate::options;
use crate::options::SortOptions;
use crate::rows;
use crate::rows::list_from_rows;
use crate::text;
use crate::value;
use crate::value::Value;
use vstd::prelude::*;

verus! {

/// `sorted` is the list column `list` with every list sorted by `options`: it has as many slots,
/// null where those of `list` are.
pub open spec fn is_column_sort_of(
    sorted: Seq<Value>,
    list: Seq<Value>,
    options: SortOptions,
) -> bool {
    &&& sorted.len() == list.len()
    &&& forall|i: int|
        0 <= i < list.len() ==> match #[trigger] sorted[i] {
            Value::Null => list[i] is Null,
            Value::List(row) => list[i] is List && value::is_sort_of(
                row,
                list[i]->List_0,
                options,
            ),
            _ => false,
        }
}

/// The lists of a list column are within the limits of Arrow's functions. Each can be sorted.
/// Where there is more than one, they are not run-end encoded, and if they can be sorted, their
/// views or dictionaries have room in one array.
pub open spec fn has_sortable_rows(list: AnyArray) -> bool {
    let item = arrays::item_type(list);
    let lists = rows::present(arrays::list_rows(list)->0);
    &&& forall|k: int| 0 <= k < lists.len() ==> arrays::can_sort(#[trigger] lists[k])
    &&& lists.len() > 1 ==> {
        &&& !(arrays::type_class(item) is RunEndEncoded)
        &&& arrays::is_sortable(item) ==> arrays::has_room(lists, item)
    }
}

/// Some list of a column is not null.
pub open spec fn has_list(items: Seq<Value>) -> bool {
    exists|i: int| 0 <= i < items.len() && #[trigger] items[i] is List
}

/// `sorted` is what a sort made of the array `row`.
spec fn is_sorted_row(
    sorted: Option<AnyArray>,
    row: Option<AnyArray>,
    options: SortOptions,
) -> bool {
    match (sorted, row) {
        (None, None) => true,
        (Some(s), Some(r)) => {
            &&& arrays::array_type(s) == arrays::array_type(r)
            &&& value::is_sort_of(arrays::array_items(s), arrays::array_items(r), options)
            &&& arrays::array_layout(s).span <= arrays::array_layout(r).span
            &&& arrays::array_layout(s).child_span <= arrays::array_layout(r).child_span
            &&& arrays::type_class(arrays::array_type(r)) is View ==> arrays::array_layout(
                s,
            ).buffers == arrays::array_layout(r).buffers
            &&& arrays::type_class(arrays::array_type(r)) is Dictionary ==> arrays::array_layout(
                s,
            ).child == arrays::array_layout(r).child
        },
        _ => false,
    }
}

/// Sorting every row keeps how many rows there are, how many buffers if they are views, and what
/// they hold in all. Their offsets span no more.
proof fn lemma_sorted_rows(
    sorted: Seq<Option<AnyArray>>,
    rows: Seq<Option<AnyArray>>,
    options: SortOptions,
)
    requires
        sorted.len() == rows.len(),
        forall|i: int|
            0 <= i < rows.len() ==> is_sorted_row(#[trigger] sorted[i], rows[i], options),
    ensures
        rows::present(sorted).len() == rows::present(rows).len(),
        arrays::sum_of(rows::present(sorted), arrays::span()) <= arrays::sum_of(
            rows::present(rows),
            arrays::span(),
        ),
        arrays::sum_of(rows::present(sorted), arrays::child_span()) <= arrays::sum_of(
            rows::present(rows),
            arrays::child_span(),
        ),
        (forall|i: int|
            0 <= i < rows.len() && rows[i] is Some ==> arrays::type_class(
                arrays::array_type((#[trigger] rows[i])->0),
            ) is View) ==> arrays::sum_of(rows::present(sorted), arrays::data_buffers())
            == arrays::sum_of(rows::present(rows), arrays::data_buffers()),
        rows::all_items(sorted).to_multiset() == rows::all_items(rows).to_multiset(),
        rows::all_items(sorted).len() == rows::all_items(rows).len(),
    decreases rows.len(),
{
    broadcast use vstd::seq_lib::group_to_multiset_ensures;

    if rows.len() > 0 {
        let n = rows.len() - 1;
        let s = sorted.drop_last();
        let r = rows.drop_last();
        assert forall|i: int| 0 <= i < r.len() implies is_sorted_row(
            #[trigger] s[i],
            r[i],
            options,
        ) by {
            assert(s[i] == sorted[i]);
        }
        lemma_sorted_rows(s, r, options);
        assert(is_sorted_row(sorted[n], rows[n], options));
        rows::lemma_all_items_step(sorted, n);
        rows::lemma_all_items_step(rows, n);
        assert(sorted.take(n + 1) =~= sorted);
        assert(rows.take(n + 1) =~= rows);
        assert(sorted.take(n) =~= s);
        assert(rows.take(n) =~= r);
        if rows[n] is Some {
            let a = sorted[n]->0;
            let b = rows[n]->0;
            assert(rows::present(sorted).drop_last() =~= rows::present(s));
            assert(rows::present(rows).drop_last() =~= rows::present(r));
            vstd::seq_lib::lemma_multiset_commutative(rows::all_items(s), arrays::array_items(a));
            vstd::seq_lib::lemma_multiset_commutative(rows::all_items(r), arrays::array_items(b));
        }
    } else {
        assert(sorted =~= rows);
    }
    assert(rows::all_items(sorted).len() == rows::all_items(sorted).to_multiset().len());
    assert(rows::all_items(rows).len() == rows::all_items(rows).to_multiset().len());
}

/// Rows that were sorted can become one array if their lists were parts of one.
proof fn lemma_can_concat(sorted: Seq<Option<AnyArray>>, list: AnyArray, options: SortOptions)
    requires
        arrays::is_list(list),
        has_sortable_rows(list),
        rows::present(sorted).len() > 0 ==> arrays::is_sortable(arrays::item_type(list)),
        sorted.len() == arrays::list_rows(list)->0.len(),
        forall|i: int|
            0 <= i < sorted.len() ==> is_sorted_row(
                #[trigger] sorted[i],
                arrays::list_rows(list)->0[i],
                options,
            ),
    ensures
        arrays::can_concat(rows::present(sorted)),
        rows::all_items(sorted).len() <= i32::MAX,
        forall|i: int|
            0 <= i < sorted.len() && sorted[i] is Some ==> arrays::array_type(
                (#[trigger] sorted[i])->0,
            ) == arrays::item_type(list),
{
    let rows = arrays::list_rows(list)->0;
    let item = arrays::item_type(list);
    let parts = rows::present(sorted);
    lemma_sorted_rows(sorted, rows, options);
    rows::lemma_list_items(list);
    assert forall|i: int| 0 <= i < sorted.len() && sorted[i] is Some implies arrays::array_type(
        (#[trigger] sorted[i])->0,
    ) == item by {
        assert(is_sorted_row(sorted[i], rows[i], options));
        let row = rows[i];
    }
    assert forall|k: int| 0 <= k < parts.len() implies arrays::array_type(#[trigger] parts[k])
        == item by {
        let i = rows::lemma_present_place(sorted, k);
        assert(is_sorted_row(sorted[i], rows[i], options));
    }
    if arrays::type_class(item) is Dictionary {
        assert forall|k: int, l: int|
            0 <= k < parts.len() && 0 <= l < parts.len() implies #[trigger] arrays::array_layout(
            parts[k],
        ).child == #[trigger] arrays::array_layout(parts[l]).child by {
            let i = rows::lemma_present_place(sorted, k);
            let j = rows::lemma_present_place(sorted, l);
            assert(is_sorted_row(sorted[i], rows[i], options));
            assert(is_sorted_row(sorted[j], rows[j], options));
            assert(arrays::array_layout(rows[i]->0).child == arrays::array_layout(
                rows[j]->0,
            ).child);
        }
    }
    if parts.len() > 1 {
        let whole = choose|whole: AnyArray|
            {
                &&& #[trigger] arrays::array_type(whole) == item
                &&& arrays::lists_in(arrays::array_items(list)).flatten().to_multiset().subset_of(
                    arrays::array_items(whole).to_multiset(),
                )
            };
        assert(arrays::array_type(whole) == item);
        assert(arrays::fits_one_array(item, rows::all_items(sorted)));
        assert(arrays::has_room(parts, item)) by {
            let lists = rows::present(rows);
            assert(arrays::has_room(lists, item));
            match arrays::type_class(item) {
                TypeClass::View => {
                    assert forall|i: int| 0 <= i < rows.len() && rows[i] is Some implies
                        arrays::type_class(
                        arrays::array_type((#[trigger] rows[i])->0),
                    ) is View by {
                        let row = rows[i];
                    }
                },
                TypeClass::Dictionary(key, _) => {
                    assert forall|k: int| 0 <= k < parts.len() implies arrays::has_key_for_length(
                        #[trigger] parts[k],
                        key,
                    ) by {
                        let i = rows::lemma_present_place(sorted, k);
                        assert(is_sorted_row(sorted[i], rows[i], options));
                        let j = rows::lemma_present_index(rows, i);
                        assert(arrays::has_key_for_length(lists[j], key));
                        let row = rows[i];
                    }
                },
                _ => {},
            }
        }
    }
}

/// Sorts the lists in a list column, one after the other.
///
/// It fails where there is a list to sort and Arrow has no order for its items.
pub fn sort_rows(list: &AnyArray, options: Option<SortOptions>) -> (r: Result<
    Vec<Option<AnyArray>>,
    ArraySortError,
>)
    requires
        arrays::is_list(*list),
        has_sortable_rows(*list),
    ensures
        match r {
            Ok(rows) => {
                &&& has_list(arrays::array_items(*list)) ==> arrays::is_sortable(
                    arrays::item_type(*list),
                )
                &&& is_column_sort_of(
                    rows::row_values(rows@),
                    arrays::array_items(*list),
                    options::effective(options),
                )
                &&& arrays::can_concat(rows::present(rows@))
                &&& rows::all_items(rows@).len() <= i32::MAX
                &&& forall|i: int|
                    0 <= i < rows@.len() && rows@[i] is Some ==> arrays::array_type(
                        (#[trigger] rows@[i])->0,
                    ) == arrays::item_type(*list)
            },
            Err(e) => {
                &&& has_list(arrays::array_items(*list))
                &&& !arrays::is_sortable(arrays::item_type(*list))
                &&& e matches ArraySortError::Compute(e) && arrays::is_sort_error(
                    e,
                    arrays::item_type(*list),
                )
            },
        },
{
    let ghost order = options::effective(options);
    let ghost rows = arrays::list_rows(*list)->0;
    let mut sorted: Vec<Option<AnyArray>> = Vec::new();
    let count: usize = array_len(list);
    let mut i: usize = 0;
    proof {
        rows::lemma_list_items(*list);
    }
    while i < count
        invariant
            arrays::is_list(*list),
            has_sortable_rows(*list),
            rows == arrays::list_rows(*list)->0,
            arrays::array_items(*list) == rows::row_values(rows),
            rows::all_items(rows).len() <= i32::MAX,
            order == options::effective(options),
            count == rows.len(),
            0 <= i <= count,
            sorted@.len() == i,
            forall|j: int|
                0 <= j < i ==> is_sorted_row(#[trigger] sorted@[j], rows[j], order),
            forall|j: int|
                0 <= j < i && (#[trigger] sorted@[j]) is Some ==> arrays::is_sortable(
                    arrays::item_type(*list),
                ),
        decreases count - i,
    {
        if list_is_null(list, i) {
            sorted.push(None);
        } else {
            let row = list_value(list, i);
            proof {
                assert(rows[i as int] == Some(row));
                let k = rows::lemma_present_index(rows, i as int);
                assert(arrays::can_sort(rows::present(rows)[k]));
            }
            match sort(&row, options) {
                Err(e) => {
                    proof {
                        assert(rows::row_values(rows)[i as int] is List);
                    }
                    return Err(ArraySortError::Compute(e));
                },
                Ok(s) => {
                    sorted.push(Some(s));
                },
            }
        }
        i = i + 1;
    }
    proof {
        let result = rows::row_values(sorted@);
        assert forall|j: int| 0 <= j < rows.len() implies match #[trigger] result[j] {
            Value::Null => rows::row_values(rows)[j] is Null,
            Value::List(row) => rows::row_values(rows)[j] is List && value::is_sort_of(
                row,
                rows::row_values(rows)[j]->List_0,
                order,
            ),
            _ => false,
        } by {
            assert(is_sorted_row(sorted@[j], rows[j], order));
        }
        if rows::present(sorted@).len() > 0 {
            let k = rows::lemma_present_place(sorted@, 0);
        }
        if has_list(arrays::array_items(*list)) {
            let k = choose|k: int|
                0 <= k < rows.len() && #[trigger] rows::row_values(rows)[k] is List;
            assert(is_sorted_row(sorted@[k], rows[k], order));
        }
        lemma_can_concat(sorted@, *list, order);
    }
    Ok(sorted)
}

/// The arguments are within the limits of Arrow's functions.
pub open spec fn is_within_limits(args: Seq<AnyArray>) -> bool {
    &&& arguments::has_modifiers(args)
    &&& arguments::requested_options(args) is Ok && arrays::list_rows(args[0]) is Some
        ==> has_sortable_rows(args[0])
}

/// `r` is what `array_sort` makes of its arguments, if these ask for `options`.
///
/// The first argument has to be a `ListArray`. One without slots comes back as it is. One with
/// slots comes back with every list sorted, with items that are named `item` and may be null,
/// and packed. This fails where there is a list and Arrow has no order for its items, and where
/// all slots are null.
pub open spec fn is_sort_result(
    list: AnyArray,
    options: Option<SortOptions>,
    r: Result<AnyArray, ArraySortError>,
) -> bool {
    let items = arrays::array_items(list);
    let item = arrays::item_type(list);
    if arrays::list_rows(list) is None {
        r == Err::<AnyArray, ArraySortError>(ArraySortError::NotAListArray)
    } else if items.len() == 0 {
        r == Ok::<AnyArray, ArraySortError>(list)
    } else if !has_list(items) {
        r matches Err(ArraySortError::Compute(e)) && arrays::is_concat_error(e)
    } else if !arrays::is_sortable(item) {
        r matches Err(ArraySortError::Compute(e)) && arrays::is_sort_error(e, item)
    } else {
        &&& r is Ok
        &&& arrays::array_type(r->Ok_0) == arrays::list_type("item"@, item, true)
        &&& arrays::type_class(arrays::array_type(r->Ok_0)) == arrays::TypeClass::List(item)
        &&& is_column_sort_of(
            arrays::array_items(r->Ok_0),
            items,
            options::effective(options),
        )
        &&& arrays::list_rows(r->Ok_0) is Some
        &&& arrays::list_parts(r->Ok_0) == rows::packed(arrays::array_items(r->Ok_0))
    }
}

/// `r` is what `array_sort` makes of its arguments. What the modifiers have wrong is found
/// before anything is said of the first argument.
pub open spec fn is_array_sort(
    args: Seq<AnyArray>,
    r: Result<AnyArray, ArraySortError>,
) -> bool {
    match arguments::requested_options(args) {
        Err(e) => r == Err::<AnyArray, ArraySortError>(e),
        Ok(options) => is_sort_result(args[0], options, r),
    }
}

/// The SQL function `array_sort(array, desc, nulls_first)`: sorts every list of a list column.
///
/// The second argument is `ASC` or `DESC`, the third `NULLS FIRST` or `NULLS LAST`, in any
/// mixture of cases. Without them the order is ascending with nulls first.
pub fn array_sort_inner(args: &[AnyArray]) -> (r: Result<AnyArray, ArraySortError>)
    requires
        is_within_limits(args@),
    ensures
        is_array_sort(args@, r),
        arguments::has_ascii_modifiers(args@) ==> arguments::requested_options(args@)
            == arguments::options_by(args@, |s: Seq<char>| text::ascii_uppercase(s)),
{
    let options = match sort_options(args) {
        Ok(options) => options,
        Err(e) => return Err(e),
    };
    let list = &args[0];
    if !is_list_array(list) {
        return Err(ArraySortError::NotAListArray);
    }
    if array_len(list) == 0 {
        return Ok(list.clone());
    }
    let rows = match sort_rows(list, options) {
        Ok(rows) => rows,
        Err(e) => return Err(e),
    };
    proof {
        let items = arrays::array_items(*list);
        let result = rows::row_values(rows@);
        if has_list(items) {
            let i = choose|i: int| 0 <= i < items.len() && #[trigger] items[i] is List;
            assert(result[i] is List);
            rows::lemma_present_split(rows@, i);
            assert(rows::present(rows@.skip(i)).len() > 0) by {
                rows::lemma_present_split(rows@.skip(i), 1);
                let first = rows@.skip(i).take(1);
                assert(first.last() == rows@[i]);
            }
        }
        if rows::present(rows@).len() > 0 {
            let k = rows::lemma_present_place(rows@, 0);
            assert(result[k] is List);
            assert(items[k] is List);
        }
    }
    list_from_rows(list_value_type(list), &rows)
}

} // verus!
