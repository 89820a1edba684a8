//! What the batches of the benchmark hold, and what its cases are called.

use crate::arrays;
use crate::arrays::{AnyArray, BasicType};
use crate::text;
use crate::unnest;
use crate::unnest::{benchmark_sizes, case_name, create_test_batch};
use crate::value::Value;
use vstd::prelude::*;

verus! {

/// The number that decimal digits stand for.
pub open spec fn number_of(digits: Seq<char>) -> nat
    decreases digits.len(),
{
    if digits.len() == 0 {
        0
    } else {
        10 * number_of(digits.drop_last()) + ((digits.last() as int) - ('0' as int)) as nat
    }
}

/// `digits` is how `n` is written: in decimal digits, the first of which is not a zero, unless it
/// is the only one.
pub open spec fn writes(digits: Seq<char>, n: nat) -> bool {
    &&& digits.len() > 0
    &&& forall|i: int| 0 <= i < digits.len() ==> '0' <= #[trigger] digits[i] && digits[i] <= '9'
    &&& digits[0] == '0' ==> digits.len() == 1
    &&& number_of(digits) == n
}

/// Decimal notation writes the number.
proof fn lemma_decimal(n: nat)
    ensures
        writes(text::decimal(n), n),
        n > 0 ==> text::decimal(n)[0] != '0',
    decreases n,
{
    let digits = text::decimal(n);
    if n < 10 {
        assert(digits.drop_last() =~= Seq::<char>::empty());
        assert(number_of(digits.drop_last()) == 0);
    } else {
        lemma_decimal(n / 10);
        assert(digits.drop_last() =~= text::decimal(n / 10));
    }
}

/// The text in the name column of a batch, in row `i`.
pub open spec fn name_in(batch: AnyArray, i: int) -> Value {
    arrays::batch_columns(batch)[0].items[i]
}

/// The name of a row, in decimal notation.
proof fn lemma_name(num_rows: usize, list_size: usize, batch: AnyArray, i: int)
    requires
        call_ensures(create_test_batch, (num_rows, list_size), batch),
        0 <= i < num_rows,
    ensures
        name_in(batch, i) == Value::Bytes(
            vstd::utf8::encode_utf8("row_"@ + text::decimal(i as nat)),
        ),
{
    assert(arrays::batch_columns(batch)[0].items[i] == arrays::text_items(
        unnest::row_names(num_rows as nat),
    )[i]);
}

/// The name of a row is `row_` and its number.
pub proof fn law_rows_are_numbered(num_rows: usize, list_size: usize, batch: AnyArray, i: int)
    requires
        call_ensures(create_test_batch, (num_rows, list_size), batch),
        0 <= i < num_rows,
    ensures
        arrays::batch_columns(batch)[0].items.len() == num_rows,
        name_in(batch, i) matches Value::Bytes(bytes) && {
            let name = vstd::utf8::decode_utf8(bytes);
            &&& vstd::utf8::valid_utf8(bytes)
            &&& name.take(4) == "row_"@
            &&& writes(name.skip(4), i as nat)
        },
{
    lemma_name(num_rows, list_size, batch, i);
    lemma_decimal(i as nat);
    let name = "row_"@ + text::decimal(i as nat);
    reveal_strlit("row_");
    vstd::utf8::encode_utf8_decode_utf8(name);
    vstd::utf8::encode_utf8_valid_utf8(name);
    assert(name.take(4) =~= "row_"@);
    assert(name.skip(4) =~= text::decimal(i as nat));
}

/// No two rows of a batch have the same name.
pub proof fn law_names_differ(num_rows: usize, list_size: usize, batch: AnyArray, i: int, j: int)
    requires
        call_ensures(create_test_batch, (num_rows, list_size), batch),
        0 <= i < num_rows,
        0 <= j < num_rows,
        i != j,
    ensures
        name_in(batch, i) != name_in(batch, j),
{
    law_rows_are_numbered(num_rows, list_size, batch, i);
    law_rows_are_numbered(num_rows, list_size, batch, j);
}

/// Rows have the same names in all batches that are long enough.
pub proof fn law_names_do_not_depend_on_the_size(
    num_rows: usize,
    list_size: usize,
    batch: AnyArray,
    other_rows: usize,
    other_size: usize,
    other: AnyArray,
    i: int,
)
    requires
        call_ensures(create_test_batch, (num_rows, list_size), batch),
        call_ensures(create_test_batch, (other_rows, other_size), other),
        0 <= i < num_rows,
        0 <= i < other_rows,
    ensures
        name_in(batch, i) == name_in(other, i),
{
    lemma_name(num_rows, list_size, batch, i);
    lemma_name(other_rows, other_size, other, i);
}

/// A batch has four columns without nulls: one of strings, and three of lists of integers, which
/// are named `item` and may be null. The three hold the same.
pub proof fn law_columns(num_rows: usize, list_size: usize, batch: AnyArray, k: int)
    requires
        call_ensures(create_test_batch, (num_rows, list_size), batch),
    ensures
        ({
            let columns = arrays::batch_columns(batch);
            &&& columns.len() == 4
            &&& columns[0].name == "metadata"@
            &&& columns[1].name == "values_a"@
            &&& columns[2].name == "values_b"@
            &&& columns[3].name == "values_c"@
            &&& columns[0].data_type == arrays::basic_type(BasicType::Utf8)
            &&& 0 <= k < 4 ==> {
                &&& !columns[k].nullable
                &&& columns[k].items.len() == num_rows
            }
            &&& 1 <= k < 4 ==> {
                &&& columns[k].data_type == arrays::list_type(
                    "item"@,
                    arrays::basic_type(BasicType::Int32),
                    true,
                )
                &&& columns[k].items == columns[1].items
            }
        }),
{
}

/// What is left of a number in the range of 32-bit integers.
pub open spec fn wrapped(n: int) -> int {
    if n % 0x1_0000_0000 < 0x8000_0000 {
        n % 0x1_0000_0000
    } else {
        n % 0x1_0000_0000 - 0x1_0000_0000
    }
}

/// A cast to 32 bits leaves what is left of a number there.
proof fn lemma_wrapped(x: usize)
    ensures
        (x as i32) as int == wrapped(x as int),
{
    let y = x as u64;
    assert((x as i32) == (x as u64) as i32) by (bit_vector);
    assert((y as i32) == if y % 0x1_0000_0000u64 < 0x8000_0000u64 {
        (y % 0x1_0000_0000u64) as int
    } else {
        (y % 0x1_0000_0000u64) - 0x1_0000_0000u64
    }) by (bit_vector);
}

/// The list in a row counts on from its first item, which is as many as the rows before it have
/// items, as far as this is in the range of 32-bit integers; so is the number of its items.
pub proof fn law_lists_count(
    num_rows: usize,
    list_size: usize,
    batch: AnyArray,
    k: int,
    i: int,
    j: int,
)
    requires
        call_ensures(create_test_batch, (num_rows, list_size), batch),
        1 <= k < 4,
        0 <= i < num_rows,
        i * list_size <= usize::MAX,
    ensures
        arrays::batch_columns(batch)[k].items[i] matches Value::List(list) && {
            &&& list.len() == if wrapped(list_size as int) > 0 {
                wrapped(list_size as int)
            } else {
                0
            }
            &&& 0 <= j < list.len() ==> list[j] == Value::Number(wrapped(i * list_size) + j)
        },
{
    assert(0 <= i * list_size) by (nonlinear_arith)
        requires
            0 <= i,
    ;
    lemma_wrapped(list_size);
    lemma_wrapped((i * list_size) as usize);
    assert(arrays::batch_columns(batch)[k].items == unnest::list_column(
        num_rows as nat,
        list_size,
    ));
}

/// In a batch whose items can be counted with 31 bits, item `j` of row `i` is the number of the
/// items before it.
pub proof fn law_lists_count_all_items(
    num_rows: usize,
    list_size: usize,
    batch: AnyArray,
    k: int,
    i: int,
    j: int,
)
    requires
        call_ensures(create_test_batch, (num_rows, list_size), batch),
        num_rows * list_size <= i32::MAX,
        1 <= k < 4,
        0 <= i < num_rows,
    ensures
        arrays::batch_columns(batch)[k].items[i] matches Value::List(list) && {
            &&& list.len() == list_size
            &&& 0 <= j < list_size ==> list[j] == Value::Number(i * list_size + j)
        },
{
    assert(0 <= i * list_size <= i32::MAX && list_size <= i32::MAX) by (nonlinear_arith)
        requires
            0 <= i < num_rows,
            0 <= list_size,
            num_rows * list_size <= i32::MAX,
    ;
    law_lists_count(num_rows, list_size, batch, k, i, j);
}

/// Batches of up to a hundred million rows can be made if their items can be counted with 31
/// bits.
pub proof fn law_batches_can_be_made(num_rows: usize, list_size: usize)
    requires
        num_rows <= 100_000_000,
        num_rows * list_size <= i32::MAX,
    ensures
        call_requires(create_test_batch, (num_rows, list_size)),
{
    unnest::lemma_batch_fits(num_rows, list_size);
}

/// The bytes of the names, counted from row to row.
proof fn lemma_name_bytes(num_rows: nat, bytes: Seq<int>)
    requires
        bytes.len() == num_rows + 1,
        bytes[0] == 0,
        forall|i: int|
            0 <= i < num_rows ==> #[trigger] bytes[i + 1] == bytes[i] + 4 + text::decimal(
                i as nat,
            ).len(),
    ensures
        text::total_bytes(unnest::row_names(num_rows)) == bytes.last(),
    decreases num_rows,
{
    let names = unnest::row_names(num_rows);
    if num_rows > 0 {
        let n = (num_rows - 1) as nat;
        assert forall|i: int| 0 <= i < n implies #[trigger] bytes.drop_last()[i + 1]
            == bytes.drop_last()[i] + 4 + text::decimal(i as nat).len() by {
            assert(bytes[i + 1] == bytes[i] + 4 + text::decimal(i as nat).len());
        }
        lemma_name_bytes(n, bytes.drop_last());
        assert(names.drop_last() =~= unnest::row_names(n));
        assert(bytes[n as int + 1] == bytes[n as int] + 4 + text::decimal(n).len());
        lemma_decimal(n);
        let name = "row_"@ + text::decimal(n);
        reveal_strlit("row_");
        assert(vstd::utf8::is_ascii_chars(name)) by {
            assert forall|i: int| 0 <= i < name.len() implies (#[trigger] name[i]) as u32
                <= 127 by {
                if i >= 4 {
                    assert(name[i] == text::decimal(n)[i - 4]);
                }
            }
        }
        vstd::utf8::is_ascii_chars_encode_utf8(name);
        assert(names.last() == name);
    }
}

/// A batch can be made if the place of every row is in the range of `usize`, the end of every list
/// and the number of all items in that of 32-bit integers, and the bytes of all names can be
/// counted with 31 bits. `bytes` counts them from row to row: four, and one for each digit.
pub proof fn law_any_batch_that_fits_can_be_made(
    num_rows: usize,
    list_size: usize,
    bytes: Seq<int>,
)
    requires
        forall|i: int|
            0 <= i < num_rows ==> {
                &&& #[trigger] (i * list_size) <= usize::MAX
                &&& i32::MIN <= wrapped(i * list_size) + wrapped(list_size as int) <= i32::MAX
            },
        wrapped(list_size as int) > 0 ==> num_rows * wrapped(list_size as int) <= i32::MAX,
        bytes.len() == num_rows + 1,
        bytes[0] == 0,
        forall|i: int|
            0 <= i < num_rows ==> #[trigger] bytes[i + 1] == bytes[i] + 4 + text::decimal(
                i as nat,
            ).len(),
        bytes.last() <= i32::MAX,
    ensures
        call_requires(create_test_batch, (num_rows, list_size)),
{
    lemma_name_bytes(num_rows as nat, bytes);
    lemma_wrapped(list_size);
    assert forall|i: nat| i < num_rows implies {
        &&& i * list_size <= usize::MAX
        &&& i32::MIN <= #[trigger] unnest::first_item(i, list_size) + (list_size as i32)
            <= i32::MAX
    } by {
        assert((i as int) * list_size <= usize::MAX);
        assert(0 <= i * list_size) by (nonlinear_arith);
        lemma_wrapped((i * list_size) as usize);
    }
    if wrapped(list_size as int) <= 0 {
        assert(num_rows * unnest::list_length(list_size) == 0) by (nonlinear_arith)
            requires
                unnest::list_length(list_size) == 0,
        ;
    }
    assert(unnest::batch_fits(num_rows, list_size));
}

/// A number is written in one way: decimal notation reads back as the number, and the names and
/// cases of the benchmark use it.
pub proof fn law_decimal_notation(n: nat)
    ensures
        writes(text::decimal(n), n),
{
    lemma_decimal(n);
}

/// The benchmark has three sizes, with ten times as many rows from one to the next, from ten on,
/// and lists of a hundred items.
pub proof fn law_sizes(sizes: Vec<(usize, usize)>)
    requires
        call_ensures(benchmark_sizes, (), sizes),
    ensures
        sizes@.len() == 3,
        sizes@[0].0 == 10,
        forall|k: int| 0 <= k < 3 ==> (#[trigger] sizes@[k]).1 == 100,
        forall|k: int| 0 < k < 3 ==> (#[trigger] sizes@[k]).0 == 10 * sizes@[k - 1].0,
        forall|k: int|
            0 <= k < 3 ==> call_requires(create_test_batch, #[trigger] sizes@[k]) && call_requires(
                case_name,
                sizes@[k],
            ),
{
    law_batches_can_be_made(10, 100);
    law_batches_can_be_made(100, 100);
    law_batches_can_be_made(1000, 100);
    assert forall|k: int| 0 <= k < 3 implies call_requires(create_test_batch, #[trigger] sizes@[k])
        && call_requires(case_name, sizes@[k]) by {
        assert(sizes@[0] == (10usize, 100usize));
        assert(sizes@[1] == (100usize, 100usize));
        assert(sizes@[2] == (1000usize, 100usize));
    }
}

/// The name of a case tells the number of rows, the size of a list and their product.
pub proof fn law_case_names(num_rows: usize, list_size: usize, name: String) -> (parts: (
    Seq<char>,
    Seq<char>,
    Seq<char>,
))
    requires
        call_ensures(case_name, (num_rows, list_size), name),
        num_rows * list_size <= usize::MAX,
    ensures
        call_requires(case_name, (num_rows, list_size)),
        name@ == parts.0 + "rows_"@ + parts.1 + "list_"@ + parts.2 + "intermediate"@,
        writes(parts.0, num_rows as nat),
        writes(parts.1, list_size as nat),
        writes(parts.2, (num_rows * list_size) as nat),
{
    assert(0 <= num_rows * list_size) by (nonlinear_arith);
    lemma_decimal(num_rows as nat);
    lemma_decimal(list_size as nat);
    lemma_decimal((num_rows * list_size) as nat);
    (
        text::decimal(num_rows as nat),
        text::decimal(list_size as nat),
        text::decimal((num_rows * list_size) as nat),
    )
}

} // verus!
