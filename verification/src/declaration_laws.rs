//! What `array_sort` declares of itself, and what its errors say.

use crate::arrays;
use crate::arrays::TypeClass;
use crate::error::ArraySortError;
use crate::order_laws;
use crate::udf::{
    get_array_sort_doc, result_type_of, ArraySort, DocSection, Documentation, Signature,
    TypeSignature, Volatility,
};
use arrow_schema::DataType;
use vstd::prelude::*;

verus! {

/// The type of the result goes by the first argument alone: a list, of whatever size, becomes a
/// list of the same items, and a list with 64-bit offsets stays one. The items are named `item`
/// and may be null. There is no result type for any other argument.
pub proof fn law_result_types(
    function: &ArraySort,
    types: &[DataType],
    r: Result<DataType, ArraySortError>,
)
    requires
        call_ensures(ArraySort::return_type, (function, types), r),
        types@.len() > 0,
    ensures
        call_requires(ArraySort::return_type, (function, types)),
        match arrays::type_class(types@[0]) {
            TypeClass::List(item) | TypeClass::FixedSizeList(item, _) => {
                &&& r == Ok::<DataType, ArraySortError>(arrays::list_type("item"@, item, true))
                &&& arrays::type_class(r->Ok_0) == TypeClass::List(item)
            },
            TypeClass::LargeList(item) => {
                &&& r == Ok::<DataType, ArraySortError>(
                    arrays::large_list_type("item"@, item, true),
                )
                &&& arrays::type_class(r->Ok_0) == TypeClass::LargeList(item)
            },
            _ => r == Err::<DataType, ArraySortError>(ArraySortError::ArgumentType),
        },
{
}

/// Fixed-size lists of any two sizes, and lists of any size, have the same result type if their
/// items have the same type, whatever that is and whatever other arguments there are.
pub proof fn law_sizes_do_not_matter(
    function: &ArraySort,
    types: &[DataType],
    others: &[DataType],
    x: Result<DataType, ArraySortError>,
    y: Result<DataType, ArraySortError>,
    item: DataType,
)
    requires
        call_ensures(ArraySort::return_type, (function, types), x),
        call_ensures(ArraySort::return_type, (function, others), y),
        types@.len() > 0,
        others@.len() > 0,
        arrays::type_class(types@[0]) == TypeClass::List(item) || (arrays::type_class(
            types@[0],
        ) is FixedSizeList && arrays::type_class(types@[0])->FixedSizeList_0 == item),
        arrays::type_class(others@[0]) == TypeClass::List(item) || (arrays::type_class(
            others@[0],
        ) is FixedSizeList && arrays::type_class(others@[0])->FixedSizeList_0 == item),
    ensures
        x is Ok,
        x == y,
{
}

/// Declaring the type again for an argument of the declared type changes nothing.
pub proof fn law_declared_type_is_its_own(
    function: &ArraySort,
    types: &[DataType],
    again: &[DataType],
    x: DataType,
    y: Result<DataType, ArraySortError>,
)
    requires
        call_ensures(ArraySort::return_type, (function, types), Ok(x)),
        call_ensures(ArraySort::return_type, (function, again), y),
        types@.len() > 0,
        again@.len() > 0,
        again@[0] == x,
    ensures
        y == Ok::<DataType, ArraySortError>(x),
{
}

/// What is declared for the type of a column with slots is the type that it comes out with.
pub proof fn law_declared_type_is_that_of_the_result(
    function: &ArraySort,
    types: &[DataType],
    declared: Result<DataType, ArraySortError>,
    args: &[arrays::AnyArray],
    sorted: arrays::AnyArray,
)
    requires
        call_ensures(ArraySort::return_type, (function, types), declared),
        order_laws::gives(args, Ok(sorted)),
        arrays::is_list(args@[0]),
        arrays::array_items(args@[0]).len() > 0,
        types@.len() > 0,
        types@[0] == arrays::array_type(args@[0]),
    ensures
        declared == Ok::<DataType, ArraySortError>(arrays::array_type(sorted)),
{
    order_laws::law_column_keeps_its_item_type(args, Ok(sorted), arrays::item_type(args@[0]));
}

/// The result type of a class of types is that of the types of the class.
pub proof fn law_result_types_of_classes(class: TypeClass, r: Result<DataType, ArraySortError>)
    requires
        call_ensures(result_type_of, (class,), r),
    ensures
        call_requires(result_type_of, (class,)),
        match class {
            TypeClass::List(item) | TypeClass::FixedSizeList(item, _) => {
                &&& r == Ok::<DataType, ArraySortError>(arrays::list_type("item"@, item, true))
                &&& arrays::type_class(r->Ok_0) == TypeClass::List(item)
            },
            TypeClass::LargeList(item) => {
                &&& r == Ok::<DataType, ArraySortError>(
                    arrays::large_list_type("item"@, item, true),
                )
                &&& arrays::type_class(r->Ok_0) == TypeClass::LargeList(item)
            },
            _ => r == Err::<DataType, ArraySortError>(ArraySortError::ArgumentType),
        },
{
}

/// The function is called `array_sort`, and `list_sort` too; it takes any arguments; and its
/// result depends on nothing else. This holds of every value of its type.
pub proof fn law_declaration(
    function: &ArraySort,
    name: &'static str,
    signature: &Signature,
    aliases: &Vec<String>,
)
    ensures
        call_ensures(ArraySort::name, (function,), name) ==> name@ == "array_sort"@,
        call_ensures(ArraySort::signature, (function,), signature) ==> {
            &&& signature.type_signature == TypeSignature::VariadicAny
            &&& signature.volatility == Volatility::Immutable
        },
        call_ensures(ArraySort::aliases, (function,), aliases) ==> {
            &&& aliases@.len() == 1
            &&& aliases@[0]@ == "list_sort"@
        },
        call_requires(ArraySort::name, (function,)),
        call_requires(ArraySort::signature, (function,)),
        call_requires(ArraySort::aliases, (function,)),
        call_requires(ArraySort::documentation, (function,)),
        call_requires(ArraySort::new, ()),
{
    if call_ensures(ArraySort::aliases, (function,), aliases) {
        let names = aliases@.map_values(|alias: String| alias@);
        assert(names == seq!["list_sort"@]);
        assert(names[0] == aliases@[0]@);
    }
}

/// `doc` documents `array_sort`.
pub open spec fn documents(doc: Documentation) -> bool {
    let names = doc.arguments@.map_values(|a: crate::udf::Argument| a.name@);
    &&& doc.section == DocSection::Array
    &&& doc.description@ == "Sort array."@
    &&& names == seq!["array"@, "desc"@, "nulls_first"@]
    &&& doc.arguments@[0].description@
        == "Array expression. Can be a constant, column, or function, and any combination of array operators."@
    &&& doc.arguments@[1].description@ == "Whether to sort in descending order(`ASC` or `DESC`)."@
    &&& doc.arguments@[2].description@
        == "Whether to sort nulls first(`NULLS FIRST` or `NULLS LAST`)."@
    &&& doc.syntax_example@ == "array_sort("@ + names[0] + ", "@ + names[1] + ", "@ + names[2]
        + ")"@
    &&& doc.sql_example@
        == "```sql
> select array_sort([3, 1, 2]);
+-----------------------------+
| array_sort(List([3,1,2]))   |
+-----------------------------+
| [1, 2, 3]                   |
+-----------------------------+
```"@
}

/// The documentation explains each argument, gives a call with all of them in their order, and
/// shows a call with what it gives.
pub proof fn law_documentation(
    function: &ArraySort,
    doc: Documentation,
    documentation: Option<Documentation>,
)
    ensures
        call_ensures(get_array_sort_doc, (), doc) ==> documents(doc),
        call_ensures(ArraySort::documentation, (function,), documentation) ==> documentation is Some
            && documents(documentation->0),
        call_requires(get_array_sort_doc, ()),
{
    reveal_strlit("array_sort(array, desc, nulls_first)");
    reveal_strlit("array_sort(");
    reveal_strlit(", ");
    reveal_strlit(")");
    reveal_strlit("array");
    reveal_strlit("desc");
    reveal_strlit("nulls_first");
    let call = "array_sort(array, desc, nulls_first)"@;
    assert(call =~= "array_sort("@ + "array"@ + ", "@ + "desc"@ + ", "@ + "nulls_first"@ + ")"@);
    if call_ensures(get_array_sort_doc, (), doc) {
        lemma_documents(doc);
    }
    if call_ensures(ArraySort::documentation, (function,), documentation) {
        lemma_documents(documentation->0);
    }
}

/// The documentation says all of this.
proof fn lemma_documents(doc: Documentation)
    requires
        crate::udf::is_array_sort_doc(doc),
        "array_sort(array, desc, nulls_first)"@ == "array_sort("@ + "array"@ + ", "@ + "desc"@
            + ", "@ + "nulls_first"@ + ")"@,
    ensures
        documents(doc),
{
    let names = doc.arguments@.map_values(|a: crate::udf::Argument| a.name@);
    assert(names =~= seq!["array"@, "desc"@, "nulls_first"@]);
}

/// What the errors of the function itself say. A failed cast and a failed Arrow function have no
/// text of their own.
pub proof fn law_messages(error: &ArraySortError, text: Option<&'static str>)
    requires
        call_ensures(ArraySortError::message, (error,), text),
    ensures
        call_requires(ArraySortError::message, (error,)),
        match error {
            ArraySortError::ArgumentCount => text matches Some(t) && t@
                == "array_sort expects one to three arguments"@,
            ArraySortError::Direction => text matches Some(t) && t@
                == "the second parameter of array_sort expects DESC or ASC"@,
            ArraySortError::NullPlacement => text matches Some(t) && t@
                == "the third parameter of array_sort expects NULLS FIRST or NULLS LAST"@,
            ArraySortError::ArgumentType => text matches Some(t) && t@
                == "Not reachable, data_type should be List, LargeList or FixedSizeList"@,
            ArraySortError::NotAStringArray | ArraySortError::NotAListArray => text is None,
            ArraySortError::Compute(_) => text is None,
        },
{
}

} // verus!
