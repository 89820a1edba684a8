//! What a result of `array_sort` must satisfy, told by the arguments and the result alone.

use crate::arguments;
use crate::arrays;
use crate::arrays::{AnyArray, TypeClass};
use crate::checked::checked_array_sort;
use crate::error::ArraySortError;
use crate::laws;
use crate::options;
use crate::options::SortOptions;
use crate::rows;
use crate::sort;
use crate::sort::array_sort_inner;
use crate::text;
use crate::value;
use crate::value::Value;
use vstd::prelude::*;

verus! {

/// `array_sort` may give `r` for `args`, with or without a test of the limits.
pub open spec fn gives(args: &[AnyArray], r: Result<AnyArray, ArraySortError>) -> bool {
    ||| call_ensures(array_sort_inner, (args,), r)
    ||| call_ensures(checked_array_sort, (args,), Some(r))
}

/// The text that counts of a modifier array: that in its first slot, in uppercase.
pub open spec fn first_text(a: AnyArray) -> Seq<char> {
    text::uppercase(arrays::text_slots(a)->0[0])
}

/// The arguments ask for descending order: there is a second one, and it says `DESC`.
pub open spec fn asks_descending(args: Seq<AnyArray>) -> bool {
    args.len() >= 2 && first_text(args[1]) == "DESC"@
}

/// The arguments ask for nulls last: there is a third one, and it says `NULLS LAST`.
pub open spec fn asks_nulls_last(args: Seq<AnyArray>) -> bool {
    args.len() >= 3 && first_text(args[2]) == "NULLS LAST"@
}

/// The number of arguments is one, two or three, and those behind the first are string arrays.
pub open spec fn has_strings(args: Seq<AnyArray>) -> bool {
    &&& 1 <= args.len() <= 3
    &&& args.len() >= 2 ==> arrays::text_slots(args[1]) is Some
    &&& args.len() == 3 ==> arrays::text_slots(args[2]) is Some
}

/// The modifiers, if there are any, are a direction and a place for the nulls.
pub open spec fn has_good_modifiers(args: Seq<AnyArray>) -> bool {
    &&& has_strings(args)
    &&& args.len() >= 2 ==> first_text(args[1]) == "DESC"@ || first_text(args[1]) == "ASC"@
    &&& args.len() == 3 ==> first_text(args[2]) == "NULLS FIRST"@ || first_text(args[2])
        == "NULLS LAST"@
}

/// `x` and `y` differ at `p`, and nowhere before.
pub open spec fn differ_first_at<T>(x: Seq<T>, y: Seq<T>, p: int) -> bool {
    &&& 0 <= p < x.len()
    &&& p < y.len()
    &&& x[p] != y[p]
    &&& forall|q: int| 0 <= q < p ==> #[trigger] x[q] == y[q]
}

/// `y` begins with `x`, and goes on.
pub open spec fn is_proper_prefix<T>(x: Seq<T>, y: Seq<T>) -> bool {
    &&& x.len() < y.len()
    &&& forall|q: int| 0 <= q < x.len() ==> #[trigger] x[q] == y[q]
}

/// `x` comes before `y` in the dictionary.
pub open spec fn is_less_bytes(x: Seq<u8>, y: Seq<u8>) -> bool {
    ||| is_proper_prefix(x, y)
    ||| exists|p: int| #[trigger] differ_first_at(x, y, p) && x[p] < y[p]
}

/// Of two items of lists that differ, `a` is the one for which its list comes first.
pub open spec fn is_first_item(a: Value, b: Value, descending: bool, nulls_last: bool) -> bool {
    match (a, b) {
        (Value::Null, _) => !nulls_last,
        (_, Value::Null) => nulls_last,
        (Value::Number(x), Value::Number(y)) => if descending {
            y < x
        } else {
            x < y
        },
        (Value::Bytes(x), Value::Bytes(y)) => if descending {
            is_less_bytes(y, x)
        } else {
            is_less_bytes(x, y)
        },
        _ => false,
    }
}

/// Of two lists that differ, `x` comes first.
pub open spec fn is_first_list(
    x: Seq<Value>,
    y: Seq<Value>,
    descending: bool,
    nulls_last: bool,
) -> bool {
    ||| !descending && is_proper_prefix(x, y)
    ||| descending && is_proper_prefix(y, x)
    ||| exists|p: int| #[trigger]
        differ_first_at(x, y, p) && is_first_item(x[p], y[p], descending, nulls_last)
}

/// One value may stand somewhere before another: nulls stand together at their end; numbers,
/// byte strings and lists ascend or descend.
pub open spec fn may_stand_before(a: Value, b: Value, descending: bool, nulls_last: bool) -> bool {
    match (a, b) {
        (Value::Null, Value::Null) => true,
        (Value::Null, _) => !nulls_last,
        (_, Value::Null) => nulls_last,
        (Value::Number(x), Value::Number(y)) => if descending {
            x >= y
        } else {
            x <= y
        },
        (Value::Bytes(x), Value::Bytes(y)) => x == y || if descending {
            is_less_bytes(y, x)
        } else {
            is_less_bytes(x, y)
        },
        (Value::List(x), Value::List(y)) => x == y || is_first_list(x, y, descending, nulls_last),
        _ => false,
    }
}

/// The recursive order of byte strings is that of the dictionary.
proof fn lemma_bytes_less(x: Seq<u8>, y: Seq<u8>)
    requires
        value::bytes_le(x, y),
    ensures
        x == y || is_less_bytes(x, y),
    decreases x.len(),
{
    if x.len() == 0 {
        if y.len() == 0 {
            assert(x =~= y);
        } else {
            assert(is_proper_prefix(x, y));
        }
    } else if x[0] != y[0] {
        assert(differ_first_at(x, y, 0));
    } else {
        let xs = x.drop_first();
        let ys = y.drop_first();
        lemma_bytes_less(xs, ys);
        assert(x =~= seq![x[0]] + xs);
        assert(y =~= seq![x[0]] + ys);
        if xs == ys {
        } else if is_proper_prefix(xs, ys) {
            assert forall|q: int| 0 <= q < x.len() implies #[trigger] x[q] == y[q] by {
                if q > 0 {
                    assert(xs[q - 1] == ys[q - 1]);
                }
            }
            assert(is_proper_prefix(x, y));
        } else {
            let p = choose|p: int| #[trigger] differ_first_at(xs, ys, p) && xs[p] < ys[p];
            assert forall|q: int| 0 <= q < p + 1 implies #[trigger] x[q] == y[q] by {
                if q > 0 {
                    assert(xs[q - 1] == ys[q - 1]);
                }
            }
            assert(differ_first_at(x, y, p + 1));
        }
    }
}

/// Of two items that differ, the lesser is the one that comes first, or the greater.
proof fn lemma_first_item(a: Value, b: Value, descending: bool, nulls_last: bool)
    requires
        a != b,
        if descending {
            value::item_le(b, a, nulls_last)
        } else {
            value::item_le(a, b, !nulls_last)
        },
    ensures
        is_first_item(a, b, descending, nulls_last),
{
    match (a, b) {
        (Value::Bytes(x), Value::Bytes(y)) => {
            if descending {
                lemma_bytes_less(y, x);
            } else {
                lemma_bytes_less(x, y);
            }
        },
        _ => {},
    }
}

/// The recursive order of lists goes by their first difference.
proof fn lemma_first_list(x: Seq<Value>, y: Seq<Value>, descending: bool, nulls_last: bool)
    requires
        if descending {
            value::list_le(y, x, nulls_last)
        } else {
            value::list_le(x, y, !nulls_last)
        },
    ensures
        x == y || is_first_list(x, y, descending, nulls_last),
    decreases x.len() + y.len(),
{
    if x.len() == 0 || y.len() == 0 {
        if x.len() == y.len() {
            assert(x =~= y);
        } else if descending {
            assert(is_proper_prefix(y, x));
        } else {
            assert(is_proper_prefix(x, y));
        }
    } else if x[0] != y[0] {
        lemma_first_item(x[0], y[0], descending, nulls_last);
        assert(differ_first_at(x, y, 0));
    } else {
        let xs = x.drop_first();
        let ys = y.drop_first();
        lemma_first_list(xs, ys, descending, nulls_last);
        assert(x =~= seq![x[0]] + xs);
        assert(y =~= seq![x[0]] + ys);
        if xs == ys {
        } else if !descending && is_proper_prefix(xs, ys) {
            assert forall|q: int| 0 <= q < x.len() implies #[trigger] x[q] == y[q] by {
                if q > 0 {
                    assert(xs[q - 1] == ys[q - 1]);
                }
            }
            assert(is_proper_prefix(x, y));
        } else if descending && is_proper_prefix(ys, xs) {
            assert forall|q: int| 0 <= q < y.len() implies #[trigger] y[q] == x[q] by {
                if q > 0 {
                    assert(ys[q - 1] == xs[q - 1]);
                }
            }
            assert(is_proper_prefix(y, x));
        } else {
            let p = choose|p: int| #[trigger]
                differ_first_at(xs, ys, p) && is_first_item(xs[p], ys[p], descending, nulls_last);
            assert forall|q: int| 0 <= q < p + 1 implies #[trigger] x[q] == y[q] by {
                if q > 0 {
                    assert(xs[q - 1] == ys[q - 1]);
                }
            }
            assert(differ_first_at(x, y, p + 1));
        }
    }
}

/// Every value of an ordered sequence may stand before every later one.
pub(crate) proof fn lemma_may_stand_before(s: Seq<Value>, options: SortOptions, j: int, k: int)
    requires
        value::is_ordered(s, options),
        0 <= j < k < s.len(),
    ensures
        may_stand_before(s[j], s[k], options.descending, !options.nulls_first),
{
    assert(value::in_order(s[j], s[k], options));
    match (s[j], s[k]) {
        (Value::Bytes(x), Value::Bytes(y)) => {
            if options.descending {
                lemma_bytes_less(y, x);
            } else {
                lemma_bytes_less(x, y);
            }
        },
        (Value::List(x), Value::List(y)) => {
            lemma_first_list(x, y, options.descending, !options.nulls_first);
        },
        _ => {},
    }
}

/// What the arguments ask for is what their first texts say.
proof fn lemma_requested(args: Seq<AnyArray>)
    requires
        arguments::requested_options(args) is Ok,
    ensures
        has_good_modifiers(args),
        options::effective(arguments::requested_options(args)->Ok_0) == (SortOptions {
            descending: asks_descending(args),
            nulls_first: !asks_nulls_last(args),
        }),
{
    reveal_strlit("DESC");
    reveal_strlit("ASC");
    reveal_strlit("NULLS FIRST");
    reveal_strlit("NULLS LAST");
    assert("NULLS FIRST"@.len() != "NULLS LAST"@.len());
}

/// Every list that comes out is in the order that the arguments ask for, whatever the type of
/// its items. Of any two items, the one that stands first may stand before the other: nulls come
/// last exactly where the third argument says `NULLS LAST`; all others descend exactly where the
/// second says `DESC`, and ascend otherwise.
pub proof fn law_lists_are_in_order(
    args: &[AnyArray],
    r: Result<AnyArray, ArraySortError>,
    i: int,
    j: int,
    k: int,
)
    requires
        gives(args, r),
        r is Ok,
        0 <= i < arrays::array_items(args@[0]).len(),
        arrays::array_items(r->Ok_0)[i] is List,
        0 <= j < k < arrays::array_items(r->Ok_0)[i]->List_0.len(),
    ensures
        may_stand_before(
            arrays::array_items(r->Ok_0)[i]->List_0[j],
            arrays::array_items(r->Ok_0)[i]->List_0[k],
            asks_descending(args@),
            asks_nulls_last(args@),
        ),
{
    lemma_requested(args@);
    let slot = arrays::array_items(r->Ok_0)[i];
    lemma_may_stand_before(
        slot->List_0,
        options::effective(arguments::requested_options(args@)->Ok_0),
        j,
        k,
    );
}

/// What comes out has the slots that went in: as many, null where these are null, and otherwise
/// lists with the same items, each as often.
pub proof fn law_lists_keep_their_items(
    args: &[AnyArray],
    r: Result<AnyArray, ArraySortError>,
    i: int,
)
    requires
        gives(args, r),
        r is Ok,
        0 <= i < arrays::array_items(args@[0]).len(),
    ensures
        arrays::array_items(r->Ok_0).len() == arrays::array_items(args@[0]).len(),
        match arrays::array_items(r->Ok_0)[i] {
            Value::Null => arrays::array_items(args@[0])[i] is Null,
            Value::List(row) => {
                &&& arrays::array_items(args@[0])[i] is List
                &&& row.to_multiset() == arrays::array_items(args@[0])[i]->List_0.to_multiset()
            },
            _ => false,
        },
{
    let slot = arrays::array_items(r->Ok_0)[i];
}

/// A column without slots comes back as it is. One with slots comes back as a list array with
/// items of the same type, which are named `item` and may be null.
pub proof fn law_column_keeps_its_item_type(
    args: &[AnyArray],
    r: Result<AnyArray, ArraySortError>,
    item: arrow_schema::DataType,
)
    requires
        gives(args, r),
        r is Ok,
        arrays::type_class(arrays::array_type(args@[0])) == TypeClass::List(item),
    ensures
        arrays::array_items(args@[0]).len() == 0 ==> r->Ok_0 == args@[0],
        arrays::array_items(args@[0]).len() > 0 ==> {
            &&& arrays::array_type(r->Ok_0) == arrays::list_type("item"@, item, true)
            &&& arrays::type_class(arrays::array_type(r->Ok_0)) == TypeClass::List(item)
            &&& arrays::list_rows(r->Ok_0) is Some
        },
{
}

/// The sums of lengths step by the lengths.
pub(crate) proof fn lemma_sum_step(lengths: Seq<nat>, i: int)
    requires
        0 <= i < lengths.len(),
    ensures
        rows::sum(lengths.take(i + 1)) == rows::sum(lengths.take(i)) + lengths[i],
{
    assert(lengths.take(i + 1).drop_last() =~= lengths.take(i));
}

/// Where an item of a list stands among the items of all lists.
pub(crate) proof fn lemma_lists_in_place(items: Seq<Value>, i: int, j: int)
    requires
        0 <= i < items.len(),
        items[i] is List,
        0 <= j < items[i]->List_0.len(),
    ensures
        rows::sum(rows::list_lengths(items).take(i)) + j < arrays::lists_in(items).flatten().len(),
        arrays::lists_in(items).flatten()[rows::sum(rows::list_lengths(items).take(i)) + j]
            == items[i]->List_0[j],
    decreases items.len(),
{
    let front = items.drop_last();
    let lengths = rows::list_lengths(items);
    let before = arrays::lists_in(front);
    rows::lemma_lists_length(front);
    assert(rows::list_lengths(front) =~= lengths.drop_last());
    if items.last() is List {
        before.lemma_flatten_push(items.last()->List_0);
    }
    if i == items.len() - 1 {
        assert(lengths.take(i) =~= lengths.drop_last());
    } else {
        lemma_lists_in_place(front, i, j);
        assert(rows::list_lengths(front).take(i) =~= lengths.take(i));
    }
}

/// What comes out of a column with slots is laid out without gaps: its offsets start at zero,
/// step by the length of each list that went in, and not at null slots; its values end with the
/// last offset; what stands in a list stands in the values from its offset on; and a bitmap tells
/// which slots are null, even if none is.
pub proof fn law_lists_lie_side_by_side(
    args: &[AnyArray],
    r: Result<AnyArray, ArraySortError>,
    i: int,
)
    requires
        gives(args, r),
        r is Ok,
        0 <= i < arrays::array_items(args@[0]).len(),
    ensures
        ({
            let items = arrays::array_items(args@[0]);
            let parts = arrays::list_parts(r->Ok_0);
            &&& parts.offsets.len() == items.len() + 1
            &&& parts.offsets[0] == 0
            &&& parts.offsets.last() == parts.values.len()
            &&& parts.offsets[i + 1] - parts.offsets[i] == match items[i] {
                Value::List(row) => row.len() as int,
                _ => 0,
            }
            &&& arrays::array_items(r->Ok_0)[i] matches Value::List(row) ==> forall|j: int|
                0 <= j < row.len() ==> #[trigger] row[j] == parts.values[parts.offsets[i] + j]
            &&& parts.valid is Some
            &&& parts.valid->0.len() == items.len()
            &&& parts.valid->0[i] == !(items[i] is Null)
        }),
{
    laws::law_result_is_packed(args@, r);
    law_lists_keep_their_items(args, r, i);
    let items = arrays::array_items(args@[0]);
    let sorted = arrays::array_items(r->Ok_0);
    let parts = arrays::list_parts(r->Ok_0);
    let lengths = rows::list_lengths(items);
    lemma_sum_step(lengths, i);
    assert(lengths.take(lengths.len() as int) =~= lengths);
    if sorted[i] is List {
        let row = sorted[i]->List_0;
        let own = rows::list_lengths(sorted);
        assert(parts.offsets[i] == rows::sum(own.take(i)));
        assert forall|j: int| 0 <= j < row.len() implies #[trigger] row[j]
            == parts.values[parts.offsets[i] + j] by {
            lemma_lists_in_place(sorted, i, j);
        }
    }
}

/// Which error comes, and when: first the number of arguments counts, then that the modifiers are
/// string arrays, then what the direction says, then what the place for the nulls says, then that
/// the first argument is a list array. Nothing of this depends on more than the first slots of
/// the modifiers.
pub proof fn law_errors(args: &[AnyArray], r: Result<AnyArray, ArraySortError>)
    requires
        gives(args, r),
    ensures
        (r matches Err(e) && e is ArgumentCount) == (args@.len() == 0 || args@.len() > 3),
        (r matches Err(e) && e is NotAStringArray) == (1 <= args@.len() <= 3 && !has_strings(
            args@,
        )),
        (r matches Err(e) && e is Direction) == (has_strings(args@) && args@.len() >= 2
            && first_text(args@[1]) != "DESC"@ && first_text(args@[1]) != "ASC"@),
        (r matches Err(e) && e is NullPlacement) == (has_strings(args@) && args@.len() == 3 && (
        first_text(args@[1]) == "DESC"@ || first_text(args@[1]) == "ASC"@) && first_text(args@[2])
            != "NULLS FIRST"@ && first_text(args@[2]) != "NULLS LAST"@),
        (r matches Err(e) && e is NotAListArray) == (has_good_modifiers(args@)
            && arrays::list_rows(args@[0]) is None),
        !(r matches Err(e) && e is ArgumentType),
        (r is Ok || r->Err_0 is Compute) == (has_good_modifiers(args@) && arrays::list_rows(
            args@[0],
        ) is Some),
{
    reveal_strlit("DESC");
    reveal_strlit("ASC");
    reveal_strlit("NULLS FIRST");
    reveal_strlit("NULLS LAST");
}

/// The text of the error of an Arrow function.
pub open spec fn compute_text(r: Result<AnyArray, ArraySortError>) -> Option<Seq<char>> {
    match r {
        Err(ArraySortError::Compute(e)) => arrays::compute_message(e),
        _ => None,
    }
}

/// `text` tells why items of type `t` have no order: by the type itself, or by that of the items
/// of the lists or of the dictionary that they are. It shows the type where no field is in it.
pub open spec fn tells_type(text: Seq<char>, t: arrow_schema::DataType) -> bool {
    match arrays::type_class(t) {
        TypeClass::List(item) | TypeClass::LargeList(item) | TypeClass::FixedSizeList(item, _)
        | TypeClass::Dictionary(_, item) => {
            &&& " not supported in rank"@.is_suffix_of(text)
            &&& match arrays::type_class(item) {
                TypeClass::Null | TypeClass::Boolean | TypeClass::View => text
                    == arrays::type_text(item) + " not supported in rank"@,
                TypeClass::FixedSizeBinary(_) => text == arrays::type_text(item)
                    + " not supported in rank"@,
                _ => true,
            }
        },
        TypeClass::Null => text == "Sort not supported for data type "@ + arrays::type_text(t),
        _ => "Sort not supported for data type "@.is_prefix_of(text),
    }
}

/// A list array with good modifiers is sorted if it has no slots, or if it has a list and Arrow
/// can sort its items. Otherwise the error is that of the Arrow function that failed: of the
/// concatenation where all slots are null, and of the sort where the items have no order.
pub proof fn law_success(args: &[AnyArray], r: Result<AnyArray, ArraySortError>)
    requires
        gives(args, r),
        has_good_modifiers(args@),
        arrays::list_rows(args@[0]) is Some,
    ensures
        ({
            let items = arrays::array_items(args@[0]);
            let some_list = exists|i: int| 0 <= i < items.len() && #[trigger] items[i] is List;
            let order = arrays::is_sortable(arrays::item_type(args@[0]));
            &&& r is Ok == (items.len() == 0 || some_list && order)
            &&& items.len() > 0 && !some_list ==> compute_text(r) == Some(
                "concat requires input of at least one array"@,
            )
            &&& some_list && !order ==> compute_text(r) is Some && tells_type(
                compute_text(r)->0,
                arrays::item_type(args@[0]),
            )
        }),
{
    reveal_strlit("DESC");
    reveal_strlit("ASC");
    reveal_strlit("NULLS FIRST");
    reveal_strlit("NULLS LAST");
    let items = arrays::array_items(args@[0]);
    assert(sort::has_list(items) == exists|i: int|
        0 <= i < items.len() && #[trigger] items[i] is List);
}

/// Arrow can sort numbers, byte strings, booleans, views and fixed-size binaries; lists,
/// fixed-size lists and dictionaries of numbers or byte strings; and runs of whatever it can
/// sort. Nulls, and all else, it cannot.
pub proof fn law_sortable_types(t: arrow_schema::DataType)
    ensures
        match arrays::type_class(t) {
            TypeClass::Primitive | TypeClass::Bytes(_) | TypeClass::Boolean | TypeClass::View => {
                arrays::is_sortable(t)
            },
            TypeClass::FixedSizeBinary(_) => arrays::is_sortable(t),
            TypeClass::List(item) | TypeClass::LargeList(item) | TypeClass::FixedSizeList(
                item,
                _,
            ) | TypeClass::Dictionary(_, item) => arrays::is_sortable(t) == (arrays::type_class(
                item,
            ) is Primitive || arrays::type_class(item) is Bytes),
            TypeClass::RunEndEncoded(values) => decreases_to!(t => values)
                ==> arrays::is_sortable(t) == arrays::is_sortable(values),
            TypeClass::Null | TypeClass::Other => !arrays::is_sortable(t),
        },
{
}

/// Of the modifiers only the first texts count: two calls on the same column, with equally many
/// modifiers that have the same first texts in uppercase, give the same, however many other slots
/// these have and whatever stands in them.
pub proof fn law_only_first_texts_count(
    args: &[AnyArray],
    others: &[AnyArray],
    x: Result<AnyArray, ArraySortError>,
    y: Result<AnyArray, ArraySortError>,
)
    requires
        gives(args, x),
        gives(others, y),
        has_strings(args@),
        has_strings(others@),
        args@.len() == others@.len(),
        args@[0] == others@[0],
        args@.len() >= 2 ==> first_text(args@[1]) == first_text(others@[1]),
        args@.len() == 3 ==> first_text(args@[2]) == first_text(others@[2]),
    ensures
        x is Ok == y is Ok,
        x is Ok ==> {
            &&& arrays::array_type(x->Ok_0) == arrays::array_type(y->Ok_0)
            &&& arrays::array_items(x->Ok_0) == arrays::array_items(y->Ok_0)
            &&& arrays::list_parts(x->Ok_0) == arrays::list_parts(y->Ok_0)
        },
        x is Err && !(x->Err_0 is Compute) ==> x->Err_0 == y->Err_0,
{
    assert(arguments::requested_options(args@) == arguments::requested_options(others@));
    assert(sort::is_array_sort(args@, y));
    laws::law_result_is_determined(args@, x, y);
}

/// The order of the items that go in does not matter: two columns of the same item type, whose
/// slots are null alike and hold lists with the same items, each as often, come out the same.
pub proof fn law_input_order_does_not_matter(
    args: &[AnyArray],
    others: &[AnyArray],
    x: AnyArray,
    y: AnyArray,
)
    requires
        gives(args, Ok(x)),
        gives(others, Ok(y)),
        asks_descending(args@) == asks_descending(others@),
        asks_nulls_last(args@) == asks_nulls_last(others@),
        arrays::array_items(args@[0]).len() == arrays::array_items(others@[0]).len(),
        forall|i: int|
            0 <= i < arrays::array_items(args@[0]).len() ==> match #[trigger] arrays::array_items(
                args@[0],
            )[i] {
                Value::List(row) => {
                    &&& arrays::array_items(others@[0])[i] is List
                    &&& row.to_multiset() == arrays::array_items(
                        others@[0],
                    )[i]->List_0.to_multiset()
                },
                slot => arrays::array_items(others@[0])[i] == slot,
            },
    ensures
        arrays::array_items(args@[0]).len() > 0 ==> arrays::array_items(x) == arrays::array_items(
            y,
        ),
{
    lemma_requested(args@);
    lemma_requested(others@);
    let options = options::effective(arguments::requested_options(args@)->Ok_0);
    let items = arrays::array_items(args@[0]);
    let a = arrays::array_items(x);
    let b = arrays::array_items(y);
    if items.len() > 0 {
        assert forall|i: int| 0 <= i < items.len() implies #[trigger] a[i] == b[i] by {
            let slot = items[i];
            match (a[i], b[i]) {
                (Value::List(p), Value::List(q)) => {
                    value::law_sort_ignores_input_order(
                        p,
                        q,
                        slot->List_0,
                        arrays::array_items(others@[0])[i]->List_0,
                        options,
                    );
                },
                _ => {},
            }
        }
        assert(a =~= b);
    }
}

/// With the opposite direction and the nulls at the opposite end, every list comes out reversed.
pub proof fn law_opposite_modifiers_reverse(
    args: &[AnyArray],
    others: &[AnyArray],
    x: AnyArray,
    y: AnyArray,
    i: int,
)
    requires
        gives(args, Ok(x)),
        gives(others, Ok(y)),
        args@[0] == others@[0],
        asks_descending(args@) != asks_descending(others@),
        asks_nulls_last(args@) != asks_nulls_last(others@),
        0 <= i < arrays::array_items(args@[0]).len(),
    ensures
        match arrays::array_items(x)[i] {
            Value::List(row) => arrays::array_items(y)[i] == Value::List(row.reverse()),
            slot => arrays::array_items(y)[i] == slot,
        },
{
    lemma_requested(args@);
    lemma_requested(others@);
    laws::law_opposite_order_reverses_lists(
        arrays::array_items(x),
        arrays::array_items(y),
        arrays::array_items(args@[0]),
        options::effective(arguments::requested_options(args@)->Ok_0),
        i,
    );
}

} // verus!
