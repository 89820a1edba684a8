//! The data of a benchmark that unnests list columns: its batches, their sizes and their names.

use crate::arrays;
use crate::arrays::{
    new_basic_type, new_batch, new_integer_list_array, new_list_type, new_string_array, AnyArray,
    BasicType, ColumnField,
};
use crate::text;
use crate::text::to_decimal;
use crate::value::Value;
use vstd::prelude::*;
use vstd::string::StringExecFns;

verus! {

/// The name of a row.
pub open spec fn row_name(i: nat) -> Seq<char> {
    "row_"@ + text::decimal(i)
}

/// The names of the first rows.
pub open spec fn row_names(num_rows: nat) -> Seq<Seq<char>> {
    Seq::new(num_rows, |i: int| row_name(i as nat))
}

/// The first item of the list in a row. It counts on from row to row, and wraps around where it
/// leaves the range of its type.
pub open spec fn first_item(i: nat, list_size: usize) -> i32 {
    ((i * list_size) as usize) as i32
}

/// The number of items of a list. A size beyond the range of the items gives what is left of it
/// there, and no items if that is negative.
pub open spec fn list_length(list_size: usize) -> nat {
    if (list_size as i32) > 0 {
        (list_size as i32) as nat
    } else {
        0
    }
}

/// The items of the list in a row: they ascend by one.
pub open spec fn list_in_row(i: nat, list_size: usize) -> Seq<Value> {
    Seq::new(list_length(list_size), |j: int| Value::Number(first_item(i, list_size) + j))
}

/// The lists of a column.
pub open spec fn list_column(num_rows: nat, list_size: usize) -> Seq<Value> {
    Seq::new(num_rows, |i: int| Value::List(list_in_row(i as nat, list_size)))
}

/// The batch is within the range of its types: the place of every row, the end of every list,
/// the number of all items, and the bytes of all names.
pub open spec fn batch_fits(num_rows: usize, list_size: usize) -> bool {
    &&& forall|i: nat|
        i < num_rows ==> {
            &&& i * list_size <= usize::MAX
            &&& i32::MIN <= #[trigger] first_item(i, list_size) + (list_size as i32) <= i32::MAX
        }
    &&& num_rows * list_length(list_size) <= i32::MAX
    &&& text::total_bytes(row_names(num_rows as nat)) <= i32::MAX
}

/// The name of a row.
fn name_of_row(i: usize) -> (r: String)
    ensures
        r@ == row_name(i as nat),
{
    "row_".to_owned().concat(to_decimal(i).as_str())
}

/// The names of the first rows.
fn names_of_rows(num_rows: usize) -> (r: Vec<String>)
    ensures
        r@.map_values(|t: String| t@) == row_names(num_rows as nat),
{
    let mut names: Vec<String> = Vec::new();
    let mut i: usize = 0;
    while i < num_rows
        invariant
            0 <= i <= num_rows,
            names@.len() == i,
            forall|j: int| 0 <= j < i ==> (#[trigger] names@[j])@ == row_name(j as nat),
        decreases num_rows - i,
    {
        names.push(name_of_row(i));
        i = i + 1;
    }
    assert(names@.map_values(|t: String| t@) =~= row_names(num_rows as nat));
    names
}

/// The list in a row.
fn items_of_row(i: usize, list_size: usize) -> (r: Vec<Option<i32>>)
    requires
        i * list_size <= usize::MAX,
        i32::MIN <= first_item(i as nat, list_size) + (list_size as i32) <= i32::MAX,
    ensures
        r@.map_values(|n: Option<i32>| arrays::integer_value(n)) == list_in_row(
            i as nat,
            list_size,
        ),
{
    let start: i32 = #[verifier::truncate]
    ((i * list_size) as i32);
    let end: i32 = start + #[verifier::truncate]
    (list_size as i32);
    let mut items: Vec<Option<i32>> = Vec::new();
    let mut n: i32 = start;
    while n < end
        invariant
            start <= n,
            n <= end || n == start,
            items@.len() == n - start,
            forall|j: int|
                0 <= j < items@.len() ==> #[trigger] items@[j] == Some((start + j) as i32),
        decreases end - n,
    {
        items.push(Some(n));
        n = n + 1;
    }
    assert(items@.map_values(|n: Option<i32>| arrays::integer_value(n)) =~= list_in_row(
        i as nat,
        list_size,
    ));
    items
}

/// The lists of a column.
fn lists_of_rows(num_rows: usize, list_size: usize) -> (r: Vec<Option<Vec<Option<i32>>>>)
    requires
        batch_fits(num_rows, list_size),
    ensures
        arrays::integer_list_items(r@) == list_column(num_rows as nat, list_size),
{
    let mut lists: Vec<Option<Vec<Option<i32>>>> = Vec::new();
    let mut i: usize = 0;
    while i < num_rows
        invariant
            batch_fits(num_rows, list_size),
            0 <= i <= num_rows,
            lists@.len() == i,
            forall|j: int|
                0 <= j < i ==> arrays::integer_list_value(#[trigger] lists@[j]) == Value::List(
                    list_in_row(j as nat, list_size),
                ),
        decreases num_rows - i,
    {
        proof {
            let first = first_item(i as nat, list_size);
        }
        lists.push(Some(items_of_row(i, list_size)));
        i = i + 1;
    }
    assert(arrays::integer_list_items(lists@) =~= list_column(num_rows as nat, list_size));
    lists
}

/// The lists of a column have as many items as there are rows times the length of a list.
proof fn lemma_column_length(num_rows: nat, list_size: usize)
    ensures
        arrays::lists_in(list_column(num_rows, list_size)).flatten().len() == num_rows
            * list_length(list_size),
    decreases num_rows,
{
    let column = list_column(num_rows, list_size);
    if num_rows == 0 {
        assert(column =~= Seq::<Value>::empty());
    } else {
        let n = (num_rows - 1) as nat;
        lemma_column_length(n, list_size);
        assert(column.drop_last() =~= list_column(n, list_size));
        let lists = arrays::lists_in(list_column(n, list_size));
        lists.lemma_flatten_push(list_in_row(n, list_size));
        assert(num_rows * list_length(list_size) == n * list_length(list_size) + list_length(
            list_size,
        )) by (nonlinear_arith)
            requires
                num_rows == n + 1,
        ;
    }
}

/// The columns of a batch: the names of the rows, and three times the same lists of integers.
pub open spec fn batch_columns(num_rows: usize, list_size: usize) -> Seq<arrays::Column> {
    let names = arrays::Column {
        name: "metadata"@,
        data_type: arrays::basic_type(BasicType::Utf8),
        nullable: false,
        items: arrays::text_items(row_names(num_rows as nat)),
    };
    let lists = |name: Seq<char>|
        arrays::Column {
            name,
            data_type: arrays::list_type("item"@, arrays::basic_type(BasicType::Int32), true),
            nullable: false,
            items: list_column(num_rows as nat, list_size),
        };
    seq![names, lists("values_a"@), lists("values_b"@), lists("values_c"@)]
}

/// A column of lists.
fn list_array(num_rows: usize, list_size: usize) -> (r: AnyArray)
    requires
        batch_fits(num_rows, list_size),
    ensures
        arrays::array_type(r) == arrays::list_type(
            "item"@,
            arrays::basic_type(BasicType::Int32),
            true,
        ),
        arrays::type_class(arrays::array_type(r)) is List,
        arrays::array_items(r) == list_column(num_rows as nat, list_size),
{
    proof {
        lemma_column_length(num_rows as nat, list_size);
    }
    new_integer_list_array(lists_of_rows(num_rows, list_size))
}

/// The description of a column of lists of integers that may be null, in which no list is null.
fn list_field(name: &str) -> (r: ColumnField)
    ensures
        r.name@ == name@,
        r.data_type == arrays::list_type("item"@, arrays::basic_type(BasicType::Int32), true),
        !r.nullable,
{
    ColumnField {
        name: name.to_owned(),
        data_type: new_list_type("item", new_basic_type(BasicType::Int32), true),
        nullable: false,
    }
}

/// A batch of rows with a name and three lists each. The lists count on from row to row.
pub fn create_test_batch(num_rows: usize, list_size: usize) -> (batch: AnyArray)
    requires
        batch_fits(num_rows, list_size),
    ensures
        arrays::batch_columns(batch) == batch_columns(num_rows, list_size),
{
    let mut fields: Vec<ColumnField> = Vec::new();
    fields.push(
        ColumnField {
            name: "metadata".to_owned(),
            data_type: new_basic_type(BasicType::Utf8),
            nullable: false,
        },
    );
    fields.push(list_field("values_a"));
    fields.push(list_field("values_b"));
    fields.push(list_field("values_c"));
    let mut columns: Vec<AnyArray> = Vec::new();
    columns.push(new_string_array(names_of_rows(num_rows)));
    columns.push(list_array(num_rows, list_size));
    columns.push(list_array(num_rows, list_size));
    columns.push(list_array(num_rows, list_size));
    let batch = new_batch(fields, &columns).unwrap();
    proof {
        assert(arrays::batch_columns(batch) =~= batch_columns(num_rows, list_size));
    }
    batch
}

/// The sizes of the benchmark: the number of rows, and the size of each list.
pub fn benchmark_sizes() -> (r: Vec<(usize, usize)>)
    ensures
        r@ == seq![(10usize, 100usize), (100usize, 100usize), (1000usize, 100usize)],
{
    let mut sizes: Vec<(usize, usize)> = Vec::new();
    sizes.push((10, 100));
    sizes.push((100, 100));
    sizes.push((1000, 100));
    sizes
}

/// The name of a case of the benchmark: its size, and the number of rows once its lists are
/// unnested.
pub fn case_name(num_rows: usize, list_size: usize) -> (r: String)
    requires
        num_rows * list_size <= usize::MAX,
    ensures
        r@ == text::decimal(num_rows as nat) + "rows_"@ + text::decimal(list_size as nat)
            + "list_"@ + text::decimal((num_rows * list_size) as nat) + "intermediate"@,
{
    let total: usize = num_rows * list_size;
    to_decimal(num_rows).concat("rows_").concat(to_decimal(list_size).as_str()).concat(
        "list_",
    ).concat(to_decimal(total).as_str()).concat("intermediate")
}

/// A number below a power of ten has at most as many digits as its exponent, all of them ASCII.
proof fn lemma_decimal_is_short(n: nat, limit: nat, digits: nat)
    requires
        n < limit,
        digits > 0,
        limit == vstd::arithmetic::power::pow(10, digits),
    ensures
        text::decimal(n).len() <= digits,
        vstd::utf8::is_ascii_chars(text::decimal(n)),
    decreases digits,
{
    if n >= 10 {
        vstd::arithmetic::power::lemma_pow1(10);
        assert(digits > 1);
        let fewer = (digits - 1) as nat;
        vstd::arithmetic::power::lemma_pow_adds(10, 1, fewer);
        let part = vstd::arithmetic::power::pow(10, fewer);
        assert(limit == 10 * part);
        lemma_decimal_is_short(n / 10, part as nat, fewer);
    }
}

/// The names of up to a hundred million rows take up at most twelve bytes each.
proof fn lemma_names_are_short(num_rows: nat)
    requires
        num_rows <= 100_000_000,
    ensures
        text::total_bytes(row_names(num_rows)) <= 12 * num_rows,
    decreases num_rows,
{
    let names = row_names(num_rows);
    if num_rows > 0 {
        let n = (num_rows - 1) as nat;
        lemma_names_are_short(n);
        assert(names.drop_last() =~= row_names(n));
        assert(vstd::arithmetic::power::pow(10, 8) == 100_000_000) by {
            reveal_with_fuel(vstd::arithmetic::power::pow, 9);
        }
        lemma_decimal_is_short(n, 100_000_000, 8);
        reveal_strlit("row_");
        assert(vstd::utf8::is_ascii_chars(row_name(n)));
        vstd::utf8::is_ascii_chars_encode_utf8(row_name(n));
    }
}

/// Batches of up to a hundred million rows, with items that can be counted with 31 bits, fit.
pub proof fn lemma_batch_fits(num_rows: usize, list_size: usize)
    requires
        num_rows <= 100_000_000,
        num_rows * list_size <= i32::MAX,
    ensures
        batch_fits(num_rows, list_size),
        num_rows > 0 ==> list_length(list_size) == list_size,
        forall|i: nat| i < num_rows ==> #[trigger] first_item(i, list_size) == i * list_size,
{
    lemma_names_are_short(num_rows as nat);
    if num_rows > 0 {
        assert(list_size <= num_rows * list_size) by (nonlinear_arith)
            requires
                num_rows > 0,
        ;
    }
    assert forall|i: nat| i < num_rows implies {
        &&& i * list_size <= usize::MAX
        &&& #[trigger] first_item(i, list_size) == i * list_size
        &&& i32::MIN <= first_item(i, list_size) + (list_size as i32) <= i32::MAX
    } by {
        assert(i * list_size + list_size <= num_rows * list_size) by (nonlinear_arith)
            requires
                i + 1 <= num_rows,
        ;
        assert(0 <= i * list_size) by (nonlinear_arith);
    }
    assert forall|i: nat| i < num_rows implies #[trigger] (i * list_size) <= usize::MAX by {
        let first = first_item(i, list_size);
    }
    assert(num_rows * list_length(list_size) <= i32::MAX) by {
        if num_rows == 0 {
            assert(num_rows * list_length(list_size) == 0) by (nonlinear_arith)
                requires
                    num_rows == 0,
            ;
        }
    }
}

/// The lists of a batch whose items do not wrap around count on from row to row: one after the
/// other, they are the numbers from zero.
pub proof fn law_lists_count_on(num_rows: usize, list_size: usize)
    requires
        num_rows * list_size <= i32::MAX,
    ensures
        arrays::lists_in(list_column(num_rows as nat, list_size)).flatten() == Seq::new(
            (num_rows * list_size) as nat,
            |k: int| Value::Number(k),
        ),
    decreases num_rows,
{
    let column = list_column(num_rows as nat, list_size);
    if num_rows == 0 {
        assert(column =~= Seq::<Value>::empty());
        assert(arrays::lists_in(column).flatten() =~= Seq::new(
            (num_rows * list_size) as nat,
            |k: int| Value::Number(k),
        ));
    } else {
        let n = (num_rows - 1) as usize;
        assert(num_rows * list_size == n * list_size + list_size && 0 <= n * list_size)
            by (nonlinear_arith)
            requires
                num_rows == n + 1,
        ;
        law_lists_count_on(n, list_size);
        assert(column.drop_last() =~= list_column(n as nat, list_size));
        let lists = arrays::lists_in(list_column(n as nat, list_size));
        lists.lemma_flatten_push(list_in_row(n as nat, list_size));
        assert(first_item(n as nat, list_size) == n * list_size);
        assert(arrays::lists_in(column).flatten() =~= Seq::new(
            (num_rows * list_size) as nat,
            |k: int| Value::Number(k),
        ));
    }
}

} // verus!
