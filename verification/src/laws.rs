//! What holds of `array_sort` as a whole.

use crate::arguments;
use crate::arrays;
use crate::arrays::{AnyArray, TypeClass};
use crate::error::ArraySortError;
use crate::options;
use crate::options::SortOptions;
use crate::rows;
use crate::sort;
use crate::text;
use crate::udf;
use crate::value;
use crate::value::Value;
use arrow_schema::DataType;
use vstd::prelude::*;

verus! {

/// A list column has one sort: two columns that sort the same column by the same options hold
/// the same.
pub proof fn law_column_sort_is_unique(
    x: Seq<Value>,
    y: Seq<Value>,
    list: Seq<Value>,
    options: SortOptions,
)
    requires
        sort::is_column_sort_of(x, list, options),
        sort::is_column_sort_of(y, list, options),
    ensures
        x == y,
{
    assert forall|i: int| 0 <= i < list.len() implies #[trigger] x[i] == y[i] by {
        match (x[i], y[i]) {
            (Value::List(a), Value::List(b)) => {
                value::law_sort_is_unique(a, b, list[i]->List_0, options);
            },
            _ => {},
        }
    }
    assert(x =~= y);
}

/// `array_sort` is a function: two results for the same arguments are both arrays, of the same
/// type, with the same contents and the same layout, or both errors; and unless an Arrow function
/// failed, it is the same error. If that function failed because all slots are null, or because
/// of a type without fields, the texts of its errors are the same.
pub proof fn law_result_is_determined(
    args: Seq<AnyArray>,
    x: Result<AnyArray, ArraySortError>,
    y: Result<AnyArray, ArraySortError>,
)
    requires
        sort::is_array_sort(args, x),
        sort::is_array_sort(args, y),
    ensures
        x is Ok == y is Ok,
        x is Ok ==> arrays::array_type(x->Ok_0) == arrays::array_type(y->Ok_0),
        x is Ok ==> arrays::array_items(x->Ok_0) == arrays::array_items(y->Ok_0),
        x is Ok ==> arrays::list_parts(x->Ok_0) == arrays::list_parts(y->Ok_0),
        x is Err ==> (x->Err_0 is Compute && y->Err_0 is Compute) || x->Err_0 == y->Err_0,
        x is Err && x->Err_0 is Compute && (!sort::has_list(arrays::array_items(args[0]))
            || arrays::prints_alike(arrays::blamed_type(arrays::item_type(args[0]))))
            ==> arrays::compute_message(x->Err_0->Compute_0) == arrays::compute_message(
            y->Err_0->Compute_0,
        ),
{
    if x is Ok && arrays::array_items(args[0]).len() > 0 {
        law_column_sort_is_unique(
            arrays::array_items(x->Ok_0),
            arrays::array_items(y->Ok_0),
            arrays::array_items(args[0]),
            options::effective(arguments::requested_options(args)->Ok_0),
        );
    }
}

/// Sorting keeps the shape of a column: it has as many slots, the same slots are null, and every
/// list has the same items, each as often.
pub proof fn law_shape_is_kept(args: Seq<AnyArray>, r: Result<AnyArray, ArraySortError>, i: int)
    requires
        sort::is_array_sort(args, r),
        r is Ok,
        0 <= i < arrays::array_items(args[0]).len(),
    ensures
        arrays::array_items(r->Ok_0).len() == arrays::array_items(args[0]).len(),
        arrays::array_items(r->Ok_0)[i] is Null == arrays::array_items(args[0])[i] is Null,
        arrays::array_items(r->Ok_0)[i] matches Value::List(row) ==> value::is_permutation(
            row,
            arrays::array_items(args[0])[i]->List_0,
        ),
{
    let slot = arrays::array_items(r->Ok_0)[i];
}

/// Sorting what was sorted, with the same modifiers, changes nothing.
pub proof fn law_sorting_twice(
    args: Seq<AnyArray>,
    once: AnyArray,
    twice: Result<AnyArray, ArraySortError>,
)
    requires
        sort::is_array_sort(args, Ok(once)),
        sort::is_array_sort(args.update(0, once), twice),
    ensures
        twice is Ok,
        arrays::array_type(twice->Ok_0) == arrays::array_type(once),
        arrays::array_items(twice->Ok_0) == arrays::array_items(once),
{
    let again = args.update(0, once);
    let options = options::effective(arguments::requested_options(args)->Ok_0);
    let items = arrays::array_items(args[0]);
    let sorted = arrays::array_items(once);
    assert(arguments::requested_options(again) == arguments::requested_options(args));
    if items.len() > 0 {
        let k = choose|k: int| 0 <= k < items.len() && #[trigger] items[k] is List;
        assert(sorted[k] is List);
        assert(sort::has_list(sorted));
        assert(sort::is_column_sort_of(sorted, sorted, options)) by {
            assert forall|i: int| 0 <= i < sorted.len() implies match #[trigger] sorted[i] {
                Value::Null => sorted[i] is Null,
                Value::List(row) => sorted[i] is List && value::is_sort_of(
                    row,
                    sorted[i]->List_0,
                    options,
                ),
                _ => false,
            } by {
                let slot = items[i];
            }
        }
        law_column_sort_is_unique(
            arrays::array_items(twice->Ok_0),
            sorted,
            sorted,
            options,
        );
    }
}

/// Without modifiers, and with modifiers that ask for ascending order with nulls first,
/// `array_sort` gives the same.
pub proof fn law_default_order(args: Seq<AnyArray>, r: Result<AnyArray, ArraySortError>)
    requires
        arguments::requested_options(args) == Ok::<Option<SortOptions>, ArraySortError>(
            Some(SortOptions { descending: false, nulls_first: true }),
        ),
    ensures
        sort::is_array_sort(args, r) == sort::is_array_sort(seq![args[0]], r),
{
    assert(arguments::requested_options(seq![args[0]]) == Ok::<Option<SortOptions>, ArraySortError>(
        None,
    ));
}

/// Without the third argument, and with one that asks for nulls first, `array_sort` gives the
/// same.
pub proof fn law_default_null_placement(
    args: Seq<AnyArray>,
    r: Result<AnyArray, ArraySortError>,
)
    requires
        args.len() == 3,
        arrays::text_slots(args[2]) is Some,
        text::uppercase(arrays::text_slots(args[2])->0[0]) == "NULLS FIRST"@,
    ensures
        sort::is_array_sort(args, r) == sort::is_array_sort(args.take(2), r),
{
    assert(arguments::requested_options(args.take(2)) == arguments::requested_options(args));
}

/// Sorting a column the other way round, with nulls at the other end, reverses every list.
pub proof fn law_opposite_order_reverses_lists(
    forward: Seq<Value>,
    backward: Seq<Value>,
    list: Seq<Value>,
    options: SortOptions,
    i: int,
)
    requires
        sort::is_column_sort_of(forward, list, options),
        sort::is_column_sort_of(
            backward,
            list,
            (SortOptions { descending: !options.descending, nulls_first: !options.nulls_first }),
        ),
        0 <= i < list.len(),
    ensures
        match forward[i] {
            Value::List(row) => backward[i] == Value::List(row.reverse()),
            slot => backward[i] == slot,
        },
{
    match (forward[i], backward[i]) {
        (Value::List(a), Value::List(b)) => {
            value::law_opposite_order_is_reverse(a, b, list[i]->List_0, options);
        },
        _ => {},
    }
}

/// Lists of numbers, dates, times, durations, intervals or decimals are within the limits of
/// Arrow's functions, however many and however long they are.
pub proof fn law_primitive_lists_are_within_limits(args: Seq<AnyArray>)
    requires
        arrays::is_list(args[0]),
        arrays::type_class(arrays::item_type(args[0])) is Primitive,
        arguments::has_modifiers(args),
    ensures
        sort::is_within_limits(args),
{
    let rows = arrays::list_rows(args[0])->0;
    let lists = rows::present(rows);
    rows::lemma_list_items(args[0]);
    assert forall|k: int| 0 <= k < lists.len() implies arrays::can_sort(#[trigger] lists[k]) by {
        let i = rows::lemma_present_place(rows, k);
        rows::lemma_row_length(rows, i);
        let row = rows[i];
    }
}

/// A sorted column with slots is packed: its offsets start at zero and step by the lengths of the
/// lists that went in, and its values are as many as these have items in all.
pub proof fn law_result_is_packed(args: Seq<AnyArray>, r: Result<AnyArray, ArraySortError>)
    requires
        sort::is_array_sort(args, r),
        r is Ok,
        arrays::array_items(args[0]).len() > 0,
    ensures
        ({
            let lengths = rows::list_lengths(arrays::array_items(args[0]));
            let parts = arrays::list_parts(r->Ok_0);
            &&& parts.offsets == Seq::new(
                lengths.len() + 1,
                |i: int| rows::sum(lengths.take(i)) as int,
            )
            &&& parts.offsets[0] == 0
            &&& parts.values.len() == rows::sum(lengths)
            &&& parts.valid == Some(
                arrays::array_items(args[0]).map_values(|v: Value| v is List),
            )
        }),
{
    let items = arrays::array_items(args[0]);
    let sorted = arrays::array_items(r->Ok_0);
    let options = options::effective(arguments::requested_options(args)->Ok_0);
    assert(sort::is_column_sort_of(sorted, items, options));
    assert forall|i: int| 0 <= i < items.len() implies #[trigger] rows::list_lengths(sorted)[i]
        == rows::list_lengths(items)[i] by {
        match sorted[i] {
            Value::List(row) => {
                broadcast use vstd::seq_lib::group_to_multiset_ensures;

                assert(row.len() == row.to_multiset().len());
                assert(items[i]->List_0.len() == items[i]->List_0.to_multiset().len());
            },
            _ => {},
        }
    }
    assert(rows::list_lengths(sorted) =~= rows::list_lengths(items));
    assert forall|i: int| 0 <= i < items.len() implies (#[trigger] sorted[i] is List)
        == items[i] is List by {
        let slot = sorted[i];
    }
    assert(sorted.map_values(|v: Value| v is List) =~= items.map_values(|v: Value| v is List));
    rows::lemma_lists_length(sorted);
    assert(rows::list_lengths(items).take(0) =~= Seq::<nat>::empty());
    assert(arrays::list_parts(r->Ok_0).offsets =~= Seq::new(
        rows::list_lengths(items).len() + 1,
        |i: int| rows::sum(rows::list_lengths(items).take(i)) as int,
    ));
}

/// A column with slots comes back with the type that the function declares for it.
pub proof fn law_result_has_declared_type(
    args: Seq<AnyArray>,
    r: Result<AnyArray, ArraySortError>,
)
    requires
        arrays::is_list(args[0]),
        sort::is_array_sort(args, r),
        r is Ok,
        arrays::array_items(args[0]).len() > 0,
    ensures
        udf::result_type(arrays::type_class(arrays::array_type(args[0]))) == Ok::<
            DataType,
            ArraySortError,
        >(arrays::array_type(r->Ok_0)),
{
}

/// The type that the function declares for an argument is the one that it declares for an
/// argument of that type.
pub proof fn law_declared_type_is_kept(class: TypeClass, t: DataType)
    requires
        udf::result_type(class) == Ok::<DataType, ArraySortError>(t),
        arrays::type_class(t) == udf::result_class(class),
    ensures
        udf::result_type(arrays::type_class(t)) == Ok::<DataType, ArraySortError>(t),
{
}

} // verus!
