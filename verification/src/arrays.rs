//! Arrow arrays: what they hold, and the Arrow functions that the library calls on them.
//!
//! An array of any type is an [`AnyArray`]: one of Arrow's own, or one that keeps to the `Array`
//! trait as they do. What is said of it here is said of what its `Array::to_data` gives; only
//! whether it is a `StringArray` or a `ListArray` is told by its Rust type. Two data types are
//! equal here where Arrow's `==` holds them equal.

use crate::options::SortOptions;
use crate::value::Value;
use arrow::array::{make_array, Array, ArrayRef};
use arrow::compute;
use arrow::datatypes::Int32Type;
use arrow::record_batch::RecordBatch;
use arrow_array::{ListArray, StringArray, StructArray};
use arrow_buffer::{BooleanBuffer, BooleanBufferBuilder, NullBuffer, OffsetBuffer};
use arrow_schema::DataType::{
    Binary, BinaryView, Boolean, Dictionary, FixedSizeBinary, FixedSizeList, LargeBinary,
    LargeList, LargeUtf8, List, RunEndEncoded, Utf8, Utf8View,
};
use arrow_schema::{ArrowError, DataType, Field, Schema};
use std::sync::Arc;
use vstd::prelude::*;

verus! {

/// An Arrow array of any type. Only arrays get in: the field is Arrow's own reference to one,
/// which callers put in and take out.
///
/// To verified code the struct is opaque, because Verus takes no declaration of `dyn Array`.
#[verifier::external_body]
#[derive(Debug)]
pub struct AnyArray(pub ArrayRef);

/// The type of an Arrow array.
#[verifier::external_type_specification]
#[verifier::external_body]
pub struct ExDataType(DataType);

/// A growing sequence of bits.
#[verifier::external_type_specification]
#[verifier::external_body]
pub struct ExBooleanBufferBuilder(BooleanBufferBuilder);

/// A finished sequence of bits.
#[verifier::external_type_specification]
#[verifier::external_body]
pub struct ExBooleanBuffer(BooleanBuffer);

/// The validity bitmap of an array.
#[verifier::external_type_specification]
#[verifier::external_body]
pub struct ExNullBuffer(NullBuffer);

/// What the library distinguishes among Arrow's data types.
pub enum TypeClass {
    /// `Null`.
    Null,
    /// A number, date, time, duration, interval or decimal.
    Primitive,
    /// A string or binary type; whether its offsets have 64 bits. Otherwise they have 32.
    Bytes(bool),
    /// `Boolean`.
    Boolean,
    /// `Utf8View` or `BinaryView`.
    View,
    /// Binary values of the given width.
    FixedSizeBinary(i32),
    /// A list with 32-bit offsets of items of the given type.
    List(DataType),
    /// A list with 64-bit offsets of items of the given type.
    LargeList(DataType),
    /// A list of a fixed number of items of the given type.
    FixedSizeList(DataType, i32),
    /// Keys of the first type into a dictionary of values of the second.
    Dictionary(DataType, DataType),
    /// Runs of values of the given type.
    RunEndEncoded(DataType),
    /// Any other type.
    Other,
}

/// The types of integers.
#[derive(Clone, Copy, Debug, PartialEq, Eq, Structural)]
pub enum IntegerType {
    Int8,
    Int16,
    Int32,
    Int64,
    UInt8,
    UInt16,
    UInt32,
    UInt64,
}

/// How an array is laid out in memory, as far as it matters to the functions below.
pub struct Layout {
    /// The array below it: the items of a list array of any kind, the dictionary of a dictionary
    /// array, the values of a run-end encoded array. Equal for two arrays that share it.
    pub child: Option<AnyArray>,
    /// How much the offsets of a string, binary, `List` or `LargeList` array span: the bytes or
    /// the items from the start of its first slot to the end of its last, those of null slots
    /// included. Zero for any other array.
    pub span: nat,
    /// How much the offsets of the items of a list array of any kind span, from the first to the
    /// last item that its slots hold, those of null slots included. Zero for any other array, and
    /// for items that are no string, binary, `List` or `LargeList` array.
    pub child_span: nat,
    /// The number of the buffers of a view array: one for the views, and those with the data.
    pub buffers: nat,
    /// Where the runs of a run-end encoded array end, those before its first slot and behind its
    /// last included.
    pub run_ends: Seq<int>,
    /// Where the first slot of a run-end encoded array stands among its runs.
    pub offset: nat,
}

/// What a `ListArray` is made of.
pub struct ListParts {
    /// `ListArray::value_offsets`.
    pub offsets: Seq<int>,
    /// What `ListArray::values` holds.
    pub values: Seq<Value>,
    /// The bits of `ListArray::nulls`, where there is such a bitmap.
    pub valid: Option<Seq<bool>>,
}

/// Two of Arrow's data types.
#[derive(Clone, Copy, Debug, PartialEq, Eq, Structural)]
pub enum BasicType {
    /// Signed 32-bit integers.
    Int32,
    /// Strings with 32-bit offsets.
    Utf8,
}

/// The name, type and nullability of a column.
#[derive(Debug)]
pub struct ColumnField {
    pub name: String,
    pub data_type: DataType,
    pub nullable: bool,
}

/// A column of a record batch.
pub struct Column {
    pub name: Seq<char>,
    pub data_type: DataType,
    pub nullable: bool,
    pub items: Seq<Value>,
}

/// The class of a data type.
pub uninterp spec fn type_class(t: DataType) -> TypeClass;

/// What `Debug` prints of a data type, where no field is in it.
pub uninterp spec fn type_text(t: DataType) -> Seq<char>;

/// Which type of integers a data type is. `None` for any other.
pub uninterp spec fn integer_type(t: DataType) -> Option<IntegerType>;

/// The type of a list with 32-bit offsets, with the given name, type and nullability of items.
pub uninterp spec fn list_type(name: Seq<char>, item: DataType, nullable: bool) -> DataType;

/// The type of a list with 64-bit offsets, with the given name, type and nullability of items.
pub uninterp spec fn large_list_type(name: Seq<char>, item: DataType, nullable: bool) -> DataType;

/// One of the two basic data types.
pub uninterp spec fn basic_type(b: BasicType) -> DataType;

/// The columns of a record batch, which is passed around as a struct array without nulls.
pub uninterp spec fn batch_columns(a: AnyArray) -> Seq<Column>;

/// The type of an array.
pub uninterp spec fn array_type(a: AnyArray) -> DataType;

/// What the slots of an array hold.
pub uninterp spec fn array_items(a: AnyArray) -> Seq<Value>;

/// How an array is laid out.
pub uninterp spec fn array_layout(a: AnyArray) -> Layout;

/// The texts in the slots of a `StringArray`, those of null slots included. `None` for any other
/// array.
pub uninterp spec fn text_slots(a: AnyArray) -> Option<Seq<Seq<char>>>;

/// The lists in the slots of a `ListArray`, each as an array; `None` stands in a null slot.
/// `None` for any other array.
pub uninterp spec fn list_rows(a: AnyArray) -> Option<Seq<Option<AnyArray>>>;

/// What a `ListArray` is made of.
pub uninterp spec fn list_parts(a: AnyArray) -> ListParts;

/// The text of an `ArrowError::ComputeError`. `None` for any other error.
pub uninterp spec fn compute_message(e: ArrowError) -> Option<Seq<char>>;

/// The bits in a builder.
pub uninterp spec fn builder_bits(b: BooleanBufferBuilder) -> Seq<bool>;

/// The bits in a buffer.
pub uninterp spec fn buffer_bits(b: BooleanBuffer) -> Seq<bool>;

/// The bits of a validity bitmap: `true` where the slot is not null.
pub uninterp spec fn valid_bits(b: NullBuffer) -> Seq<bool>;

/// Arrow can rank the items of a type, and so has an order for lists and dictionaries of them.
pub open spec fn is_rankable(t: DataType) -> bool {
    type_class(t) is Primitive || type_class(t) is Bytes
}

/// Arrow can sort arrays of type `t`.
pub open spec fn is_sortable(t: DataType) -> bool
    decreases t,
{
    match type_class(t) {
        TypeClass::Primitive | TypeClass::Bytes(_) | TypeClass::Boolean => true,
        TypeClass::View | TypeClass::FixedSizeBinary(_) => true,
        TypeClass::List(item) | TypeClass::LargeList(item) => is_rankable(item),
        TypeClass::FixedSizeList(item, _) => is_rankable(item),
        TypeClass::Dictionary(_, values) => is_rankable(values),
        TypeClass::RunEndEncoded(values) => decreases_to!(t => values) && is_sortable(values),
        TypeClass::Null | TypeClass::Other => false,
    }
}

/// The slots of the array below this one can be counted with 32 bits.
pub open spec fn has_short_child(a: AnyArray) -> bool {
    array_layout(a).child matches Some(child) && array_items(child).len() <= u32::MAX
}

/// The runs of a run-end encoded array ascend, have values, and cover its slots. Without slots
/// it has a run with a value, and does not start behind it.
pub open spec fn has_runs(a: AnyArray) -> bool {
    let ends = array_layout(a).run_ends;
    let start = array_layout(a).offset;
    let values = array_items(array_layout(a).child->0);
    &&& array_layout(a).child is Some
    &&& ends.len() > 0
    &&& if array_items(a).len() > 0 {
        &&& ends[0] > 0
        &&& forall|i: int, j: int|
            0 <= i < j < ends.len() ==> #[trigger] ends[i] < #[trigger] ends[j]
        &&& ends.len() <= values.len()
        &&& start + array_items(a).len() <= ends.last()
    } else {
        &&& values.len() > 0
        &&& start <= ends[0]
    }
}

/// The bytes of fixed-size binary values up to the last that is not null can be counted with 31
/// bits.
pub open spec fn has_few_bytes(a: AnyArray, width: i32) -> bool {
    forall|i: int|
        0 <= i < array_items(a).len() && !(#[trigger] array_items(a)[i] is Null) ==> (i + 1) * width
            <= i32::MAX
}

/// What an array of a type that Arrow can sort is laid out in is within the limits of
/// `arrow::compute::sort`. It counts the slots of the array below with 32 bits, and the bytes of
/// fixed-size binary values with 31. The runs of run-end encoded values cover them.
pub open spec fn fits_sort(a: AnyArray) -> bool
    decreases array_type(a),
{
    match type_class(array_type(a)) {
        TypeClass::FixedSizeBinary(width) => has_few_bytes(a, width),
        TypeClass::List(_) | TypeClass::LargeList(_) | TypeClass::FixedSizeList(_, _) => {
            has_short_child(a)
        },
        TypeClass::Dictionary(_, _) => has_short_child(a),
        TypeClass::RunEndEncoded(values) => {
            &&& has_runs(a)
            &&& has_short_child(a)
            &&& array_type(array_layout(a).child->0) == values
            &&& decreases_to!(array_type(a) => values)
            &&& fits_sort(array_layout(a).child->0)
        },
        _ => true,
    }
}

/// The array is within the limits of `arrow::compute::sort`: it counts slots with 32 bits, and
/// takes run-end encoded arrays only of values that it can sort.
pub open spec fn can_sort(a: AnyArray) -> bool {
    &&& array_items(a).len() <= u32::MAX
    &&& is_sortable(array_type(a)) ==> fits_sort(a)
    &&& type_class(array_type(a)) is RunEndEncoded ==> is_sortable(array_type(a))
}

/// No field is in a type. Equal types of this kind print alike; a field prints a hash map, and
/// numbers that Arrow does not compare.
pub open spec fn prints_alike(t: DataType) -> bool
    decreases t,
{
    match type_class(t) {
        TypeClass::Null | TypeClass::Primitive | TypeClass::Bytes(_) | TypeClass::Boolean => true,
        TypeClass::View | TypeClass::FixedSizeBinary(_) => true,
        TypeClass::Dictionary(key, values) => {
            &&& decreases_to!(t => key)
            &&& decreases_to!(t => values)
            &&& prints_alike(key)
            &&& prints_alike(values)
        },
        _ => false,
    }
}

/// Arrow sorts lists and dictionaries by the rank of their items.
pub open spec fn is_ranked(t: DataType) -> bool {
    match type_class(t) {
        TypeClass::List(_) | TypeClass::LargeList(_) | TypeClass::FixedSizeList(_, _) => true,
        TypeClass::Dictionary(_, _) => true,
        _ => false,
    }
}

/// The type that Arrow names where it cannot sort arrays of type `t`.
pub open spec fn blamed_type(t: DataType) -> DataType {
    match type_class(t) {
        TypeClass::List(item) | TypeClass::LargeList(item) => item,
        TypeClass::FixedSizeList(item, _) => item,
        TypeClass::Dictionary(_, values) => values,
        _ => t,
    }
}

/// `text` is that of the error of `arrow::compute::sort` for arrays of type `t`, which it cannot
/// sort, where `name` is what it calls the type that it blames. What it calls a type with fields
/// is left open.
pub open spec fn is_sort_message(text: Seq<char>, t: DataType, name: Seq<char>) -> bool {
    if is_ranked(t) {
        &&& " not supported in rank"@.is_suffix_of(text)
        &&& prints_alike(blamed_type(t)) ==> text == name + " not supported in rank"@
    } else {
        &&& "Sort not supported for data type "@.is_prefix_of(text)
        &&& prints_alike(blamed_type(t)) ==> text == "Sort not supported for data type "@ + name
    }
}

/// `e` is an error of `arrow::compute::sort` for arrays of type `t`, which it cannot sort.
pub open spec fn is_sort_error(e: ArrowError, t: DataType) -> bool {
    compute_message(e) matches Some(text) && is_sort_message(text, t, type_text(blamed_type(t)))
}

/// `e` is the error of `arrow::compute::concat` for no arrays.
pub open spec fn is_concat_error(e: ArrowError) -> bool {
    compute_message(e) == Some("concat requires input of at least one array"@)
}

/// Some array of type `t` has room for `items`.
pub open spec fn fits_one_array(t: DataType, items: Seq<Value>) -> bool {
    exists|whole: AnyArray|
        {
            &&& #[trigger] array_type(whole) == t
            &&& items.to_multiset().subset_of(array_items(whole).to_multiset())
        }
}

/// The items of several arrays.
pub open spec fn items_of(arrays: Seq<AnyArray>) -> Seq<Seq<Value>> {
    arrays.map_values(|a: AnyArray| array_items(a))
}

/// The sum of what `measure` says of several arrays.
pub open spec fn sum_of(arrays: Seq<AnyArray>, measure: spec_fn(AnyArray) -> int) -> int
    decreases arrays.len(),
{
    if arrays.len() == 0 {
        0
    } else {
        sum_of(arrays.drop_last(), measure) + measure(arrays.last())
    }
}

/// How much the offsets of an array span.
pub open spec fn span() -> spec_fn(AnyArray) -> int {
    |a: AnyArray| array_layout(a).span as int
}

/// How much the offsets of the items of an array span.
pub open spec fn child_span() -> spec_fn(AnyArray) -> int {
    |a: AnyArray| array_layout(a).child_span as int
}

/// The number of the buffers of a view array that hold data.
pub open spec fn data_buffers() -> spec_fn(AnyArray) -> int {
    |a: AnyArray| array_layout(a).buffers - 1
}

/// How much the offsets of an array of type `t` can span.
pub open spec fn span_limit(t: DataType) -> int {
    match type_class(t) {
        TypeClass::Bytes(large) => if large {
            i64::MAX as int
        } else {
            i32::MAX as int
        },
        TypeClass::List(_) => i32::MAX as int,
        TypeClass::LargeList(_) => i64::MAX as int,
        _ => 0,
    }
}

/// How much the offsets of the items of an array of type `t` can span.
pub open spec fn child_span_limit(t: DataType) -> int {
    match type_class(t) {
        TypeClass::List(item) | TypeClass::LargeList(item) => span_limit(item),
        TypeClass::FixedSizeList(item, _) => span_limit(item),
        _ => 0,
    }
}

/// The greatest integer of a type.
pub open spec fn greatest(t: IntegerType) -> int {
    match t {
        IntegerType::Int8 => i8::MAX as int,
        IntegerType::Int16 => i16::MAX as int,
        IntegerType::Int32 => i32::MAX as int,
        IntegerType::Int64 => i64::MAX as int,
        IntegerType::UInt8 => u8::MAX as int,
        IntegerType::UInt16 => u16::MAX as int,
        IntegerType::UInt32 => u32::MAX as int,
        IntegerType::UInt64 => u64::MAX as int,
    }
}

/// The number of values in the dictionary of an array is among the keys of type `key`.
pub open spec fn has_key_for_length(a: AnyArray, key: DataType) -> bool {
    &&& integer_type(key) is Some
    &&& array_layout(a).child is Some
    &&& array_items(array_layout(a).child->0).len() <= greatest(integer_type(key)->0)
}

/// The arrays, of type `t`, are within the limits of `arrow::compute::concat` that Arrow sets
/// for views and dictionaries: the data buffers of all views can be counted with 32 bits, and
/// the length of every dictionary fits its keys.
pub open spec fn has_room(arrays: Seq<AnyArray>, t: DataType) -> bool {
    match type_class(t) {
        TypeClass::View => sum_of(arrays, data_buffers()) <= u32::MAX,
        TypeClass::Dictionary(key, _) => forall|i: int|
            0 <= i < arrays.len() ==> has_key_for_length(#[trigger] arrays[i], key),
        _ => true,
    }
}

/// The arrays are within the limits of `arrow::compute::concat`. They have one type. Where there
/// is more than one, Arrow can sort their items and these are not run-end encoded, one array has
/// room for them, the offsets of one array can span what theirs span, views and dictionaries
/// have room, and they share their dictionary if they have one.
pub open spec fn can_concat(arrays: Seq<AnyArray>) -> bool {
    &&& forall|i: int, j: int|
        0 <= i < arrays.len() && 0 <= j < arrays.len() ==> #[trigger] array_type(arrays[i])
            == #[trigger] array_type(arrays[j])
    &&& arrays.len() > 1 ==> {
        let t = array_type(arrays[0]);
        &&& is_sortable(t)
        &&& !(type_class(t) is RunEndEncoded)
        &&& fits_one_array(t, items_of(arrays).flatten())
        &&& sum_of(arrays, span()) <= span_limit(t)
        &&& sum_of(arrays, child_span()) <= child_span_limit(t)
        &&& has_room(arrays, t)
        &&& type_class(t) is Dictionary ==> forall|i: int, j: int|
            0 <= i < arrays.len() && 0 <= j < arrays.len() ==> #[trigger] array_layout(
                arrays[i],
            ).child == #[trigger] array_layout(arrays[j]).child
    }
}

/// The type of the items of a `List` array.
pub open spec fn item_type(a: AnyArray) -> DataType {
    type_class(array_type(a))->List_0
}

/// The lists among `items`, in their order.
pub open spec fn lists_in(items: Seq<Value>) -> Seq<Seq<Value>>
    decreases items.len(),
{
    if items.len() == 0 {
        Seq::empty()
    } else {
        match items.last() {
            Value::List(list) => lists_in(items.drop_last()).push(list),
            _ => lists_in(items.drop_last()),
        }
    }
}

/// What holds of every `ListArray`. Its slots are null or lists, which are arrays of the type of
/// its items. The lists are disjoint parts of one array, so this has room for all of them, its
/// offsets span what theirs span, they share its dictionary, and as the list array has 32-bit
/// offsets, they are no longer together than these can count.
pub open spec fn is_list(a: AnyArray) -> bool {
    let rows = list_rows(a)->0;
    let item = item_type(a);
    let lists = crate::rows::present(rows);
    &&& list_rows(a) is Some
    &&& type_class(array_type(a)) is List
    &&& rows.len() == array_items(a).len()
    &&& forall|i: int|
        0 <= i < rows.len() ==> match #[trigger] rows[i] {
            None => array_items(a)[i] is Null,
            Some(row) => {
                &&& array_items(a)[i] == Value::List(array_items(row))
                &&& array_type(row) == item
                &&& type_class(item) is View ==> array_layout(row).buffers > 0
            },
        }
    &&& type_class(item) is Dictionary ==> forall|i: int, j: int|
        0 <= i < rows.len() && 0 <= j < rows.len() && rows[i] is Some && rows[j] is Some
            ==> #[trigger] array_layout(rows[i]->0).child == #[trigger] array_layout(
            rows[j]->0,
        ).child
    &&& fits_one_array(item, lists_in(array_items(a)).flatten())
    &&& sum_of(lists, span()) <= span_limit(item)
    &&& sum_of(lists, child_span()) <= child_span_limit(item)
    &&& lists_in(array_items(a)).flatten().len() <= i32::MAX
}

/// The sum of lengths.
pub open spec fn total(lengths: Seq<usize>) -> nat
    decreases lengths.len(),
{
    if lengths.len() == 0 {
        0
    } else {
        total(lengths.drop_last()) + lengths.last() as nat
    }
}

/// The slots of a list array that cuts `values` into pieces of the given lengths, one after the
/// other, and has a null wherever a slot is not valid.
pub open spec fn cut(lengths: Seq<usize>, values: Seq<Value>, valid: Seq<bool>) -> Seq<Value> {
    Seq::new(
        lengths.len(),
        |i: int|
            if valid[i] {
                Value::List(
                    values.subrange(
                        total(lengths.take(i)) as int,
                        total(lengths.take(i)) + lengths[i],
                    ),
                )
            } else {
                Value::Null
            },
    )
}

/// The offsets of lists of the given lengths that lie one behind the other, from zero on.
pub open spec fn offsets_of(lengths: Seq<usize>) -> Seq<int> {
    Seq::new(lengths.len() + 1, |i: int| total(lengths.take(i)) as int)
}

impl Clone for AnyArray {
    /// Calls `Arc::clone`: another reference to the same array.
    #[verifier::external_body]
    fn clone(&self) -> (r: Self)
        ensures
            r == *self,
    {
        AnyArray(self.0.clone())
    }
}

/// `BooleanBufferBuilder::new` makes a builder without bits.
pub assume_specification[ BooleanBufferBuilder::new ](capacity: usize) -> (r: BooleanBufferBuilder)
    ensures
        builder_bits(r) == Seq::<bool>::empty(),
;

/// `BooleanBufferBuilder::append` puts a bit behind those in the builder.
pub assume_specification[ BooleanBufferBuilder::append ](b: &mut BooleanBufferBuilder, v: bool)
    ensures
        builder_bits(*final(b)) == builder_bits(*old(b)).push(v),
;

/// `BooleanBufferBuilder::finish` moves the bits of the builder to a buffer.
pub assume_specification[ BooleanBufferBuilder::finish ](
    b: &mut BooleanBufferBuilder,
) -> (r: BooleanBuffer)
    ensures
        buffer_bits(r) == builder_bits(*old(b)),
        builder_bits(*final(b)) == Seq::<bool>::empty(),
;

/// `NullBuffer::new` takes the bits of a buffer for a validity bitmap.
pub assume_specification[ NullBuffer::new ](buffer: BooleanBuffer) -> (r: NullBuffer)
    ensures
        valid_bits(r) == buffer_bits(buffer),
;

/// Calls `Array::len`: the number of slots.
#[verifier::external_body]
pub(crate) fn array_len(a: &AnyArray) -> (r: usize)
    ensures
        r == array_items(*a).len(),
        text_slots(*a) is Some ==> r == text_slots(*a)->0.len(),
{
    a.0.len()
}

/// Tells with `Any::is` whether an array is a `StringArray`.
#[verifier::external_body]
pub(crate) fn is_string_array(a: &AnyArray) -> (r: bool)
    ensures
        r == (text_slots(*a) is Some),
{
    a.0.as_any().is::<StringArray>()
}

/// Calls `StringArray::value`: the text in a slot, whether or not the slot is null.
#[verifier::external_body]
pub(crate) fn text_at(a: &AnyArray, i: usize) -> (r: String)
    requires
        text_slots(*a) is Some,
        i < text_slots(*a)->0.len(),
    ensures
        r@ == text_slots(*a)->0[i as int],
{
    a.0.as_any().downcast_ref::<StringArray>().unwrap().value(i).to_string()
}

/// Tells with `Any::is` whether an array is a `ListArray`. Of every such array `is_list` holds.
#[verifier::external_body]
pub(crate) fn is_list_array(a: &AnyArray) -> (r: bool)
    ensures
        r == (list_rows(*a) is Some),
        r ==> is_list(*a),
{
    a.0.as_any().is::<ListArray>()
}

/// Calls `ListArray::is_null`: whether a slot is null.
#[verifier::external_body]
pub(crate) fn list_is_null(a: &AnyArray, i: usize) -> (r: bool)
    requires
        list_rows(*a) is Some,
        i < list_rows(*a)->0.len(),
    ensures
        r == (list_rows(*a)->0[i as int] is None),
{
    a.0.as_any().downcast_ref::<ListArray>().unwrap().is_null(i)
}

/// Calls `ListArray::value`: the list in a slot that is not null.
#[verifier::external_body]
pub(crate) fn list_value(a: &AnyArray, i: usize) -> (r: AnyArray)
    requires
        list_rows(*a) is Some,
        i < list_rows(*a)->0.len(),
        list_rows(*a)->0[i as int] is Some,
    ensures
        list_rows(*a)->0[i as int] == Some(r),
{
    AnyArray(a.0.as_any().downcast_ref::<ListArray>().unwrap().value(i))
}

/// Calls `ListArray::value_type`: the type of the items.
#[verifier::external_body]
pub(crate) fn list_value_type(a: &AnyArray) -> (r: DataType)
    requires
        list_rows(*a) is Some,
    ensures
        r == item_type(*a),
{
    a.0.as_any().downcast_ref::<ListArray>().unwrap().value_type()
}

/// Calls `ArrayData::child_data`: the array below one that has such an array. That of a run-end
/// encoded array, which has another one for its run ends, is the last.
#[verifier::external_body]
pub(crate) fn child_of(a: &AnyArray) -> (r: AnyArray)
    requires
        match type_class(array_type(*a)) {
            TypeClass::List(_) | TypeClass::LargeList(_) | TypeClass::FixedSizeList(_, _) => true,
            TypeClass::Dictionary(_, _) | TypeClass::RunEndEncoded(_) => true,
            _ => false,
        },
    ensures
        array_layout(*a).child == Some(r),
        type_class(array_type(*a)) matches TypeClass::RunEndEncoded(values) ==> array_type(r)
            == values,
{
    let child = make_array(a.0.to_data().child_data().last().unwrap().clone());
    AnyArray(child)
}

/// Calls `ArrayData::buffers`: the number of the buffers of a view array. The first are the
/// views.
#[verifier::external_body]
pub(crate) fn buffer_count(a: &AnyArray) -> (r: usize)
    requires
        type_class(array_type(*a)) is View,
    ensures
        r == array_layout(*a).buffers,
        r > 0,
{
    a.0.to_data().buffers().len()
}

/// Calls `ArrayData::buffer` on the first child of a run-end encoded array: the ends of its runs.
#[verifier::external_body]
pub(crate) fn run_ends(a: &AnyArray) -> (r: Vec<i64>)
    requires
        type_class(array_type(*a)) is RunEndEncoded,
    ensures
        r@.map_values(|n: i64| n as int) == array_layout(*a).run_ends,
{
    let runs = a.0.to_data();
    let ends = &runs.child_data()[0];
    match ends.data_type() {
        DataType::Int16 => ends.buffer::<i16>(0).iter().map(|n| *n as i64).collect(),
        DataType::Int32 => ends.buffer::<i32>(0).iter().map(|n| *n as i64).collect(),
        _ => ends.buffer::<i64>(0).to_vec(),
    }
}

/// Calls `ArrayData::offset`: where the first slot of a run-end encoded array stands among its
/// runs.
#[verifier::external_body]
pub(crate) fn run_offset(a: &AnyArray) -> (r: usize)
    requires
        type_class(array_type(*a)) is RunEndEncoded,
    ensures
        r == array_layout(*a).offset,
{
    a.0.to_data().offset()
}

/// Calls `Array::is_null`: whether a slot of a fixed-size binary array is null.
#[verifier::external_body]
pub(crate) fn binary_is_null(a: &AnyArray, i: usize) -> (r: bool)
    requires
        type_class(array_type(*a)) is FixedSizeBinary,
        i < array_items(*a).len(),
    ensures
        r == (array_items(*a)[i as int] is Null),
{
    a.0.is_null(i)
}

/// Calls `Array::data_type`: the type of an array.
#[verifier::external_body]
pub(crate) fn type_of(a: &AnyArray) -> (r: DataType)
    ensures
        r == array_type(*a),
{
    a.0.data_type().clone()
}

/// Tells the variants of `DataType` apart. The types in a dictionary type, and that of the values
/// in a run-end encoded type, are parts of it.
#[verifier::external_body]
pub(crate) fn classify(t: &DataType) -> (r: TypeClass)
    ensures
        r == type_class(*t),
        r matches TypeClass::RunEndEncoded(values) ==> decreases_to!(*t => values),
        r matches TypeClass::Dictionary(key, values) ==> decreases_to!(*t => key)
            && decreases_to!(*t => values),
{
    match t {
        DataType::Null => TypeClass::Null,
        List(f) => TypeClass::List(f.data_type().clone()),
        LargeList(f) => TypeClass::LargeList(f.data_type().clone()),
        FixedSizeList(f, n) => TypeClass::FixedSizeList(f.data_type().clone(), *n),
        Dictionary(k, v) => TypeClass::Dictionary((**k).clone(), (**v).clone()),
        RunEndEncoded(_, f) => TypeClass::RunEndEncoded(f.data_type().clone()),
        Utf8 | Binary => TypeClass::Bytes(false),
        LargeUtf8 | LargeBinary => TypeClass::Bytes(true),
        Boolean => TypeClass::Boolean,
        Utf8View | BinaryView => TypeClass::View,
        FixedSizeBinary(n) => TypeClass::FixedSizeBinary(*n),
        t if t.is_primitive() => TypeClass::Primitive,
        _ => TypeClass::Other,
    }
}

/// Tells the integer types among the variants of `DataType` apart.
#[verifier::external_body]
pub(crate) fn integer_type_of(t: &DataType) -> (r: Option<IntegerType>)
    ensures
        r == integer_type(*t),
{
    match t {
        DataType::Int8 => Some(IntegerType::Int8),
        DataType::Int16 => Some(IntegerType::Int16),
        DataType::Int32 => Some(IntegerType::Int32),
        DataType::Int64 => Some(IntegerType::Int64),
        DataType::UInt8 => Some(IntegerType::UInt8),
        DataType::UInt16 => Some(IntegerType::UInt16),
        DataType::UInt32 => Some(IntegerType::UInt32),
        DataType::UInt64 => Some(IntegerType::UInt64),
        _ => None,
    }
}

/// Calls `Field::new` for the items of a `DataType::List`.
#[verifier::external_body]
pub(crate) fn new_list_type(name: &str, item: DataType, nullable: bool) -> (r: DataType)
    ensures
        r == list_type(name@, item, nullable),
        type_class(r) == TypeClass::List(item),
{
    DataType::List(Arc::new(Field::new(name, item, nullable)))
}

/// Calls `Field::new` for the items of a `DataType::LargeList`.
#[verifier::external_body]
pub(crate) fn new_large_list_type(name: &str, item: DataType, nullable: bool) -> (r: DataType)
    ensures
        r == large_list_type(name@, item, nullable),
        type_class(r) == TypeClass::LargeList(item),
{
    DataType::LargeList(Arc::new(Field::new(name, item, nullable)))
}

/// Calls `arrow::compute::sort`.
///
/// It succeeds on the types that Arrow has an order for, and fails on the others. The result has
/// the same type, and its items are those of the array in the order that the options ask for;
/// without options the order is ascending with nulls first. The offsets of the result span no
/// more than those of the array; it has as many buffers, and the same dictionary. The error names
/// the type that has no order as `Debug` prints it. Of a type with fields this is not stated: it
/// shows hash maps, and numbers that `==` on types leaves out.
#[verifier::external_body]
pub(crate) fn sort(a: &AnyArray, options: Option<SortOptions>) -> (r: Result<
    AnyArray,
    ArrowError,
>)
    requires
        can_sort(*a),
    ensures
        match r {
            Ok(s) => {
                &&& is_sortable(array_type(*a))
                &&& array_type(s) == array_type(*a)
                &&& crate::value::is_sort_of(
                    array_items(s),
                    array_items(*a),
                    crate::options::effective(options),
                )
                &&& array_layout(s).span <= array_layout(*a).span
                &&& array_layout(s).child_span <= array_layout(*a).child_span
                &&& type_class(array_type(*a)) is View ==> array_layout(s).buffers == array_layout(
                    *a,
                ).buffers
                &&& type_class(array_type(*a)) is Dictionary ==> array_layout(s).child
                    == array_layout(*a).child
            },
            Err(e) => {
                &&& !is_sortable(array_type(*a))
                &&& compute_message(e) is Some
                &&& is_sort_message(
                    compute_message(e)->0,
                    array_type(*a),
                    type_text(blamed_type(array_type(*a))),
                )
            },
        },
{
    let order = options.map(|o| arrow_schema::SortOptions {
        descending: o.descending,
        nulls_first: o.nulls_first,
    });
    compute::sort(make_array(a.0.to_data()).as_ref(), order).map(|s| AnyArray(s))
}

/// Calls `arrow::compute::concat`.
///
/// It fails without arrays. Otherwise it gives an array of the same type that holds the items of
/// one array after those of the other.
#[verifier::external_body]
pub(crate) fn concat(arrays: &Vec<AnyArray>) -> (r: Result<AnyArray, ArrowError>)
    requires
        can_concat(arrays@),
    ensures
        match r {
            Ok(c) => {
                &&& arrays@.len() > 0
                &&& array_type(c) == array_type(arrays@[0])
                &&& array_items(c) == items_of(arrays@).flatten()
            },
            Err(e) => {
                &&& arrays@.len() == 0
                &&& compute_message(e) == Some("concat requires input of at least one array"@)
            },
        },
{
    let arrays: Vec<_> = arrays.iter().map(|a| make_array(a.0.to_data())).collect();
    let arrays: Vec<&dyn Array> = arrays.iter().map(|a| a.as_ref()).collect();
    compute::concat(&arrays).map(|c| AnyArray(c))
}

/// Calls `ListArray::new`, with offsets from `OffsetBuffer::from_lengths`: the array of lists
/// that cuts `values` into pieces of the given lengths. It is made of these offsets, of
/// `values`, and of the bitmap, whether or not a slot is null. `Array::slice` gives the whole
/// array as a reference.
#[verifier::external_body]
pub(crate) fn new_list_array(
    name: &str,
    item: DataType,
    nullable: bool,
    lengths: Vec<usize>,
    values: AnyArray,
    valid: NullBuffer,
) -> (r: AnyArray)
    requires
        nullable,
        item == array_type(values),
        total(lengths@) <= array_items(values).len(),
        total(lengths@) <= i32::MAX,
        valid_bits(valid).len() == lengths@.len(),
    ensures
        array_type(r) == list_type(name@, item, nullable),
        type_class(array_type(r)) == TypeClass::List(item),
        array_items(r) == cut(lengths@, array_items(values), valid_bits(valid)),
        list_parts(r) == (ListParts {
            offsets: offsets_of(lengths@),
            values: array_items(values),
            valid: Some(valid_bits(valid)),
        }),
        list_rows(r) is Some,
{
    let field = Arc::new(Field::new(name, item, nullable));
    let offsets = OffsetBuffer::from_lengths(lengths);
    let list = ListArray::new(field, offsets, values.0, Some(valid));
    let list = Array::slice(&list, 0, list.len());
    AnyArray(list)
}

/// The class of a basic data type.
pub open spec fn basic_class(b: BasicType) -> TypeClass {
    match b {
        BasicType::Int32 => TypeClass::Primitive,
        BasicType::Utf8 => TypeClass::Bytes(false),
    }
}

/// Gives the variant of `DataType` that `b` stands for.
#[verifier::external_body]
pub(crate) fn new_basic_type(b: BasicType) -> (r: DataType)
    ensures
        r == basic_type(b),
        type_class(r) == basic_class(b),
{
    match b {
        BasicType::Int32 => DataType::Int32,
        BasicType::Utf8 => DataType::Utf8,
    }
}

/// The slots of a string array with the given texts.
pub open spec fn text_items(texts: Seq<Seq<char>>) -> Seq<Value> {
    texts.map_values(|t: Seq<char>| Value::Bytes(vstd::utf8::encode_utf8(t)))
}

/// Calls `StringArray::from`: an array of texts, none of them null.
#[verifier::external_body]
pub(crate) fn new_string_array(texts: Vec<String>) -> (r: AnyArray)
    requires
        crate::text::total_bytes(texts@.map_values(|t: String| t@)) <= i32::MAX,
    ensures
        array_type(r) == basic_type(BasicType::Utf8),
        type_class(array_type(r)) == basic_class(BasicType::Utf8),
        array_items(r) == text_items(texts@.map_values(|t: String| t@)),
        text_slots(r) == Some(texts@.map_values(|t: String| t@)),
{
    let array = make_array(StringArray::from(texts).into_data());
    AnyArray(array)
}

/// The value of an optional integer.
pub open spec fn integer_value(n: Option<i32>) -> Value {
    match n {
        Some(n) => Value::Number(n as int),
        None => Value::Null,
    }
}

/// The value of an optional list of optional integers.
pub open spec fn integer_list_value(list: Option<Vec<Option<i32>>>) -> Value {
    match list {
        Some(list) => Value::List(list@.map_values(|n: Option<i32>| integer_value(n))),
        None => Value::Null,
    }
}

/// The slots of a column of lists of integers.
pub open spec fn integer_list_items(lists: Seq<Option<Vec<Option<i32>>>>) -> Seq<Value> {
    lists.map_values(|list: Option<Vec<Option<i32>>>| integer_list_value(list))
}

/// Calls `ListArray::from_iter_primitive` for `Int32`: a column of lists of integers, with items
/// that are named `item` and may be null.
#[verifier::external_body]
pub(crate) fn new_integer_list_array(lists: Vec<Option<Vec<Option<i32>>>>) -> (r: AnyArray)
    requires
        lists_in(integer_list_items(lists@)).flatten().len() <= i32::MAX,
    ensures
        array_type(r) == list_type("item"@, basic_type(BasicType::Int32), true),
        type_class(array_type(r)) == TypeClass::List(basic_type(BasicType::Int32)),
        array_items(r) == integer_list_items(lists@),
        list_rows(r) is Some,
{
    let array = make_array(ListArray::from_iter_primitive::<Int32Type, _, _>(lists).into_data());
    AnyArray(array)
}

/// The fields describe the columns: there is at least one, each has the type of its column, all
/// columns have equally many slots, and those that must not be null have none.
pub open spec fn is_schema_of(fields: Seq<ColumnField>, columns: Seq<AnyArray>) -> bool {
    &&& fields.len() == columns.len()
    &&& columns.len() > 0
    &&& forall|i: int|
        0 <= i < columns.len() ==> {
            &&& array_type(#[trigger] columns[i]) == fields[i].data_type
            &&& array_items(columns[i]).len() == array_items(columns[0]).len()
            &&& fields[i].nullable || forall|k: int|
                0 <= k < array_items(columns[i]).len() ==> !(#[trigger] array_items(
                    columns[i],
                )[k] is Null)
        }
}

/// Calls `RecordBatch::try_new`, and gives the batch as a struct array. It succeeds where the
/// fields describe the columns.
#[verifier::external_body]
pub(crate) fn new_batch(fields: Vec<ColumnField>, columns: &Vec<AnyArray>) -> (r: Result<
    AnyArray,
    ArrowError,
>)
    requires
        forall|i: int|
            0 <= i < columns@.len() ==> is_rankable(#[trigger] array_type(columns@[i]))
                || type_class(array_type(columns@[i])) is List,
    ensures
        r is Ok == is_schema_of(fields@, columns@),
        r matches Ok(b) ==> batch_columns(b) == Seq::new(
            fields@.len(),
            |i: int|
                Column {
                    name: fields@[i].name@,
                    data_type: fields@[i].data_type,
                    nullable: fields@[i].nullable,
                    items: array_items(columns@[i]),
                },
        ),
{
    let fields: Vec<Field> = fields.into_iter().map(
        |f| Field::new(f.name, f.data_type, f.nullable),
    ).collect();
    let columns: Vec<ArrayRef> = columns.iter().map(|c| c.0.clone()).collect();
    let batch = RecordBatch::try_new(Arc::new(Schema::new(fields)), columns)?;
    let array = make_array(StructArray::from(batch).into_data());
    Ok(AnyArray(array))
}

} // verus!
