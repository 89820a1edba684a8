//! List columns and their rows.

use crate::arrays;
use crate::arrays::{array_len, concat, new_list_array, AnyArray, ListParts};
use crate::error::ArraySortError;
use crate::value::Value;
use arrow_buffer::{BooleanBufferBuilder, NullBuffer};
use arrow_schema::DataType;
use vstd::prelude::*;

verus! {

/// The arrays that stand in `rows`, in their order.
pub open spec fn present(rows: Seq<Option<AnyArray>>) -> Seq<AnyArray>
    decreases rows.len(),
{
    if rows.len() == 0 {
        Seq::empty()
    } else {
        match rows.last() {
            Some(row) => present(rows.drop_last()).push(row),
            None => present(rows.drop_last()),
        }
    }
}

/// The slots of a list column that holds `rows`.
pub open spec fn row_values(rows: Seq<Option<AnyArray>>) -> Seq<Value> {
    rows.map_values(
        |row: Option<AnyArray>|
            match row {
                Some(a) => Value::List(arrays::array_items(a)),
                None => Value::Null,
            },
    )
}

/// The items of all `rows`, one row after the other.
pub open spec fn all_items(rows: Seq<Option<AnyArray>>) -> Seq<Value> {
    arrays::items_of(present(rows)).flatten()
}

/// What stands in a part of `rows` and what stands behind it is what stands in `rows`.
pub(crate) proof fn lemma_present_split(rows: Seq<Option<AnyArray>>, i: int)
    requires
        0 <= i <= rows.len(),
    ensures
        present(rows) == present(rows.take(i)) + present(rows.skip(i)),
    decreases rows.len() - i,
{
    if i == rows.len() {
        assert(rows.take(i) =~= rows);
        assert(rows.skip(i) =~= Seq::<Option<AnyArray>>::empty());
        assert(present(rows) =~= present(rows.take(i)) + present(rows.skip(i)));
    } else {
        let front = rows.drop_last();
        lemma_present_split(front, i);
        assert(front.take(i) =~= rows.take(i));
        assert(front.skip(i) =~= rows.skip(i).drop_last());
        assert(rows.skip(i).last() == rows.last());
        assert(present(rows) =~= present(rows.take(i)) + present(rows.skip(i)));
    }
}

/// Every array that stands in `rows` stands at some place there.
pub(crate) proof fn lemma_present_place(rows: Seq<Option<AnyArray>>, k: int) -> (i: int)
    requires
        0 <= k < present(rows).len(),
    ensures
        0 <= i < rows.len(),
        rows[i] == Some(present(rows)[k]),
    decreases rows.len(),
{
    let front = rows.drop_last();
    if rows.last() is Some && k == present(front).len() {
        rows.len() - 1
    } else {
        lemma_present_place(front, k)
    }
}

/// Every row that is not null is among the arrays that stand in `rows`.
pub(crate) proof fn lemma_present_index(rows: Seq<Option<AnyArray>>, i: int) -> (k: int)
    requires
        0 <= i < rows.len(),
        rows[i] is Some,
    ensures
        0 <= k < present(rows).len(),
        rows[i] == Some(present(rows)[k]),
    decreases rows.len(),
{
    let front = rows.drop_last();
    if i == rows.len() - 1 {
        present(front).len() as int
    } else {
        lemma_present_index(front, i)
    }
}

/// The items of `rows` up to one row are those of the rows before it, and then its own.
pub(crate) proof fn lemma_all_items_step(rows: Seq<Option<AnyArray>>, i: int)
    requires
        0 <= i < rows.len(),
    ensures
        all_items(rows.take(i + 1)) == match rows[i] {
            Some(a) => all_items(rows.take(i)) + arrays::array_items(a),
            None => all_items(rows.take(i)),
        },
{
    let part = rows.take(i + 1);
    assert(part.drop_last() =~= rows.take(i));
    match rows[i] {
        Some(a) => {
            let lists = arrays::items_of(present(rows.take(i)));
            assert(arrays::items_of(present(part)) =~= lists.push(arrays::array_items(a)));
            lists.lemma_flatten_push(arrays::array_items(a));
        },
        None => {},
    }
}

/// The items of `rows` begin with those of any part at its front.
pub(crate) proof fn lemma_all_items_prefix(rows: Seq<Option<AnyArray>>, i: int)
    requires
        0 <= i <= rows.len(),
    ensures
        all_items(rows.take(i)).len() <= all_items(rows).len(),
        all_items(rows).take(all_items(rows.take(i)).len() as int) == all_items(rows.take(i)),
{
    lemma_present_split(rows, i);
    let a = arrays::items_of(present(rows.take(i)));
    let b = arrays::items_of(present(rows.skip(i)));
    assert(arrays::items_of(present(rows)) =~= a + b);
    vstd::seq_lib::lemma_flatten_concat(a, b);
    assert((a.flatten() + b.flatten()).take(a.flatten().len() as int) =~= a.flatten());
}

/// The lists in the slots of a list column are its rows.
pub(crate) proof fn lemma_lists_in(rows: Seq<Option<AnyArray>>)
    ensures
        arrays::lists_in(row_values(rows)) == arrays::items_of(present(rows)),
    decreases rows.len(),
{
    if rows.len() > 0 {
        lemma_lists_in(rows.drop_last());
        assert(row_values(rows).drop_last() =~= row_values(rows.drop_last()));
        match rows.last() {
            Some(a) => {
                assert(arrays::items_of(present(rows)) =~= arrays::items_of(
                    present(rows.drop_last()),
                ).push(arrays::array_items(a)));
            },
            None => {},
        }
    } else {
        assert(row_values(rows) =~= Seq::<Value>::empty());
        assert(arrays::items_of(present(rows)) =~= Seq::<Seq<Value>>::empty());
    }
}

/// What a list column holds, told by its rows.
pub(crate) proof fn lemma_list_items(list: AnyArray)
    requires
        arrays::is_list(list),
    ensures
        arrays::array_items(list) == row_values(arrays::list_rows(list)->0),
        arrays::lists_in(arrays::array_items(list)).flatten() == all_items(
            arrays::list_rows(list)->0,
        ),
{
    let rows = arrays::list_rows(list)->0;
    assert forall|i: int| 0 <= i < rows.len() implies arrays::array_items(list)[i]
        == #[trigger] row_values(rows)[i] by {
        let row = rows[i];
    }
    assert(arrays::array_items(list) =~= row_values(rows));
    lemma_lists_in(rows);
}

/// A row is no longer than all rows together.
pub(crate) proof fn lemma_row_length(rows: Seq<Option<AnyArray>>, i: int)
    requires
        0 <= i < rows.len(),
        rows[i] is Some,
    ensures
        arrays::array_items(rows[i]->0).len() <= all_items(rows).len(),
{
    lemma_all_items_step(rows, i);
    lemma_all_items_prefix(rows, i + 1);
}

/// The lengths of the lists in the slots of a list column. A null counts as empty.
pub open spec fn list_lengths(items: Seq<Value>) -> Seq<nat> {
    items.map_values(
        |v: Value|
            match v {
                Value::List(list) => list.len(),
                _ => 0,
            },
    )
}

/// The sum of lengths.
pub open spec fn sum(lengths: Seq<nat>) -> nat
    decreases lengths.len(),
{
    if lengths.len() == 0 {
        0
    } else {
        sum(lengths.drop_last()) + lengths.last()
    }
}

/// What a list array with the slots `items` is made of where nothing is in it but its lists: the
/// offsets start at zero and step by the lengths of the lists, the values are the items of the
/// lists one after the other, and a bitmap tells the null slots, even if there are none.
pub open spec fn packed(items: Seq<Value>) -> ListParts {
    ListParts {
        offsets: Seq::new(items.len() + 1, |i: int| sum(list_lengths(items).take(i)) as int),
        values: arrays::lists_in(items).flatten(),
        valid: Some(items.map_values(|v: Value| v is List)),
    }
}

/// The sums of lengths do not depend on their type.
proof fn lemma_total(lengths: Seq<usize>)
    ensures
        arrays::total(lengths) == sum(lengths.map_values(|n: usize| n as nat)),
    decreases lengths.len(),
{
    let same = lengths.map_values(|n: usize| n as nat);
    if lengths.len() > 0 {
        lemma_total(lengths.drop_last());
        assert(same.drop_last() =~= lengths.drop_last().map_values(|n: usize| n as nat));
    }
}

/// The offsets from the lengths of the rows are those of the column that holds them.
proof fn lemma_offsets(lengths: Seq<usize>, rows: Seq<Option<AnyArray>>)
    requires
        lengths.len() == rows.len(),
        forall|j: int|
            0 <= j < rows.len() ==> #[trigger] lengths[j] == match rows[j] {
                Some(a) => arrays::array_items(a).len(),
                None => 0,
            },
    ensures
        arrays::offsets_of(lengths) == packed(row_values(rows)).offsets,
{
    let all = list_lengths(row_values(rows));
    let offsets = packed(row_values(rows)).offsets;
    assert forall|i: int| 0 <= i <= rows.len() implies #[trigger] arrays::offsets_of(lengths)[i]
        == offsets[i] by {
        lemma_total(lengths.take(i));
        assert(lengths.take(i).map_values(|n: usize| n as nat) =~= all.take(i));
    }
    assert(arrays::offsets_of(lengths) =~= offsets);
}

/// The lists in the slots of a list column have as many items as their lengths say.
pub(crate) proof fn lemma_lists_length(items: Seq<Value>)
    ensures
        arrays::lists_in(items).flatten().len() == sum(list_lengths(items)),
    decreases items.len(),
{
    if items.len() > 0 {
        lemma_lists_length(items.drop_last());
        assert(list_lengths(items).drop_last() =~= list_lengths(items.drop_last()));
        match items.last() {
            Value::List(list) => {
                arrays::lists_in(items.drop_last()).lemma_flatten_push(list);
            },
            _ => {},
        }
    }
}

/// The list column that holds `rows`, which are arrays of type `item`.
///
/// A column without any row that is not null cannot be made.
pub fn list_from_rows(item: DataType, rows: &Vec<Option<AnyArray>>) -> (r: Result<
    AnyArray,
    ArraySortError,
>)
    requires
        forall|i: int|
            0 <= i < rows@.len() && rows@[i] is Some ==> arrays::array_type(
                (#[trigger] rows@[i])->0,
            ) == item,
        arrays::can_concat(present(rows@)),
        all_items(rows@).len() <= i32::MAX,
    ensures
        match r {
            Ok(list) => {
                &&& present(rows@).len() > 0
                &&& arrays::array_type(list) == arrays::list_type("item"@, item, true)
                &&& arrays::type_class(arrays::array_type(list)) == arrays::TypeClass::List(item)
                &&& arrays::array_items(list) == row_values(rows@)
                &&& arrays::list_rows(list) is Some
                &&& arrays::list_parts(list) == packed(row_values(rows@))
            },
            Err(e) => {
                &&& present(rows@).len() == 0
                &&& e matches ArraySortError::Compute(e) && arrays::is_concat_error(e)
            },
        },
{
    let mut lengths: Vec<usize> = Vec::new();
    let mut parts: Vec<AnyArray> = Vec::new();
    let mut valid = BooleanBufferBuilder::new(rows.len());
    let mut i: usize = 0;
    proof {
        assert(rows@.take(0) =~= Seq::<Option<AnyArray>>::empty());
    }
    while i < rows.len()
        invariant
            0 <= i <= rows@.len(),
            lengths@.len() == i,
            parts@ == present(rows@.take(i as int)),
            arrays::builder_bits(valid).len() == i,
            forall|j: int|
                0 <= j < i ==> #[trigger] arrays::builder_bits(valid)[j] == (rows@[j] is Some),
            forall|j: int|
                0 <= j < i ==> #[trigger] lengths@[j] == match rows@[j] {
                    Some(a) => arrays::array_items(a).len(),
                    None => 0,
                },
            forall|j: int|
                0 <= j <= i ==> arrays::total(#[trigger] lengths@.take(j)) == all_items(
                    rows@.take(j),
                ).len(),
        decreases rows@.len() - i,
    {
        let ghost before = lengths@;
        proof {
            assert(rows@.take(i + 1).drop_last() =~= rows@.take(i as int));
            lemma_all_items_step(rows@, i as int);
        }
        match &rows[i] {
            None => {
                lengths.push(0);
                valid.append(false);
            },
            Some(row) => {
                lengths.push(array_len(row));
                parts.push(row.clone());
                valid.append(true);
            },
        }
        proof {
            assert forall|j: int| 0 <= j <= i + 1 implies arrays::total(
                #[trigger] lengths@.take(j),
            ) == all_items(rows@.take(j)).len() by {
                if j <= i {
                    assert(lengths@.take(j) =~= before.take(j));
                } else {
                    assert(lengths@.take(j).drop_last() =~= before.take(i as int));
                }
            }
        }
        i = i + 1;
    }
    proof {
        assert(rows@.take(rows@.len() as int) =~= rows@);
        assert(lengths@.take(lengths@.len() as int) =~= lengths@);
    }
    let buffer = valid.finish();
    match concat(&parts) {
        Err(e) => Err(ArraySortError::Compute(e)),
        Ok(values) => {
            let ghost k = lemma_present_place(rows@, 0);
            let bits = NullBuffer::new(buffer);
            let ghost cut = arrays::cut(
                lengths@,
                arrays::array_items(values),
                arrays::valid_bits(bits),
            );
            proof {
                assert forall|j: int| 0 <= j < rows@.len() implies #[trigger] cut[j] == row_values(
                    rows@,
                )[j] by {
                    if rows@[j] is Some {
                        let a = rows@[j]->0;
                        lemma_all_items_step(rows@, j);
                        lemma_all_items_prefix(rows@, j + 1);
                        let flat = all_items(rows@);
                        let start = all_items(rows@.take(j)).len() as int;
                        let end = all_items(rows@.take(j + 1)).len() as int;
                        assert(arrays::total(lengths@.take(j)) == start);
                        assert(flat.subrange(start, end) =~= flat.take(end).subrange(start, end));
                        assert(flat.take(end).subrange(start, end) =~= arrays::array_items(a));
                    }
                }
                assert(cut =~= row_values(rows@));
                lemma_offsets(lengths@, rows@);
                lemma_lists_in(rows@);
                assert(arrays::valid_bits(bits) =~= row_values(rows@).map_values(
                    |v: Value| v is List,
                ));
            }
            Ok(new_list_array("item", item, true, lengths, values, bits))
        },
    }
}

} // verus!
