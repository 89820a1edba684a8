//! `array_sort` as a function that a query engine can register: its name, signature, types and
//! documentation.

use crate::arrays;
use crate::arrays::{classify, new_large_list_type, new_list_type, TypeClass};
use crate::error::ArraySortError;
use arrow_schema::DataType;
use vstd::prelude::*;

verus! {

/// How far the result of a function depends on anything besides its arguments.
#[derive(Clone, Copy, Debug, PartialEq, Eq, Structural)]
pub enum Volatility {
    /// Not at all.
    Immutable,
    /// On the query.
    Stable,
    /// On every call.
    Volatile,
}

/// The arguments that a function takes.
#[derive(Clone, Copy, Debug, PartialEq, Eq, Structural)]
pub enum TypeSignature {
    /// Any number of arguments of any types.
    VariadicAny,
}

/// The signature of a function.
#[derive(Clone, Copy, Debug, PartialEq, Eq, Structural)]
pub struct Signature {
    pub type_signature: TypeSignature,
    pub volatility: Volatility,
}

/// The part of the manual that a function belongs to.
#[derive(Clone, Copy, Debug, PartialEq, Eq, Structural)]
pub enum DocSection {
    /// Functions on arrays.
    Array,
}

/// The documentation of an argument.
#[derive(Debug)]
pub struct Argument {
    pub name: String,
    pub description: String,
}

/// The documentation of a function.
#[derive(Debug)]
pub struct Documentation {
    pub section: DocSection,
    pub description: String,
    pub syntax_example: String,
    pub sql_example: String,
    pub arguments: Vec<Argument>,
}

/// A call of `array_sort`, and what it gives.
pub const SQL_EXAMPLE: &'static str = "```sql
> select array_sort([3, 1, 2]);
+-----------------------------+
| array_sort(List([3,1,2]))   |
+-----------------------------+
| [1, 2, 3]                   |
+-----------------------------+
```";

/// An argument with the given name and description.
fn argument(name: &str, description: &str) -> (r: Argument)
    ensures
        r.name@ == name@,
        r.description@ == description@,
{
    Argument { name: name.to_owned(), description: description.to_owned() }
}

/// `doc` is the documentation of `array_sort`.
pub open spec fn is_array_sort_doc(doc: Documentation) -> bool {
    &&& doc.section == DocSection::Array
    &&& doc.description@ == "Sort array."@
    &&& doc.syntax_example@ == "array_sort(array, desc, nulls_first)"@
    &&& doc.sql_example@ == SQL_EXAMPLE@
    &&& doc.arguments@.len() == 3
    &&& doc.arguments@[0].name@ == "array"@
    &&& doc.arguments@[0].description@
        == "Array expression. Can be a constant, column, or function, and any combination of array operators."@
    &&& doc.arguments@[1].name@ == "desc"@
    &&& doc.arguments@[1].description@
        == "Whether to sort in descending order(`ASC` or `DESC`)."@
    &&& doc.arguments@[2].name@ == "nulls_first"@
    &&& doc.arguments@[2].description@
        == "Whether to sort nulls first(`NULLS FIRST` or `NULLS LAST`)."@
}

/// The documentation of `array_sort`.
pub fn get_array_sort_doc() -> (doc: Documentation)
    ensures
        is_array_sort_doc(doc),
{
    let mut arguments: Vec<Argument> = Vec::new();
    arguments.push(
        argument(
            "array",
            "Array expression. Can be a constant, column, or function, and any combination of array operators.",
        ),
    );
    arguments.push(
        argument("desc", "Whether to sort in descending order(`ASC` or `DESC`)."),
    );
    arguments.push(
        argument("nulls_first", "Whether to sort nulls first(`NULLS FIRST` or `NULLS LAST`)."),
    );
    Documentation {
        section: DocSection::Array,
        description: "Sort array.".to_owned(),
        syntax_example: "array_sort(array, desc, nulls_first)".to_owned(),
        sql_example: SQL_EXAMPLE.to_owned(),
        arguments,
    }
}

/// The type that `array_sort` gives for a first argument of a class: lists of the same items,
/// which are named `item` and may be null. Lists of a fixed size become lists of any size.
pub open spec fn result_type(class: TypeClass) -> Result<DataType, ArraySortError> {
    match class {
        TypeClass::List(item) | TypeClass::FixedSizeList(item, _) => Ok(
            arrays::list_type("item"@, item, true),
        ),
        TypeClass::LargeList(item) => Ok(arrays::large_list_type("item"@, item, true)),
        _ => Err(ArraySortError::ArgumentType),
    }
}

/// The class of the type that `array_sort` gives for a first argument of a class.
pub open spec fn result_class(class: TypeClass) -> TypeClass {
    match class {
        TypeClass::FixedSizeList(item, _) => TypeClass::List(item),
        _ => class,
    }
}

/// The type that `array_sort` gives for a first argument of the given class.
pub fn result_type_of(class: TypeClass) -> (r: Result<DataType, ArraySortError>)
    ensures
        r == result_type(class),
        r matches Ok(t) ==> arrays::type_class(t) == result_class(class),
{
    match class {
        TypeClass::List(item) => Ok(new_list_type("item", item, true)),
        TypeClass::FixedSizeList(item, _) => Ok(new_list_type("item", item, true)),
        TypeClass::LargeList(item) => Ok(new_large_list_type("item", item, true)),
        _ => Err(ArraySortError::ArgumentType),
    }
}

/// The function `array_sort`.
#[derive(Debug)]
pub struct ArraySort {
    signature: Signature,
    aliases: Vec<String>,
}

/// The signature of `array_sort`: any arguments, and a result that depends on nothing else.
pub open spec fn array_sort_signature() -> Signature {
    Signature { type_signature: TypeSignature::VariadicAny, volatility: Volatility::Immutable }
}

/// The other names of `array_sort`.
pub open spec fn array_sort_aliases() -> Seq<Seq<char>> {
    seq!["list_sort"@]
}

impl ArraySort {
    /// The signature that the function declares.
    pub closed spec fn declared_signature(self) -> Signature {
        self.signature
    }

    /// The other names that the function declares.
    pub closed spec fn declared_aliases(self) -> Seq<Seq<char>> {
        self.aliases@.map_values(|alias: String| alias@)
    }

    /// Every value is the function that `new` makes.
    #[verifier::type_invariant]
    spec fn is_array_sort(self) -> bool {
        &&& self.declared_signature() == array_sort_signature()
        &&& self.declared_aliases() == array_sort_aliases()
    }

    /// The function `array_sort`.
    pub fn new() -> (r: Self)
        ensures
            r.declared_signature() == array_sort_signature(),
            r.declared_aliases() == array_sort_aliases(),
    {
        let mut aliases: Vec<String> = Vec::new();
        aliases.push("list_sort".to_owned());
        assert(aliases@.map_values(|alias: String| alias@) =~= array_sort_aliases());
        ArraySort {
            signature: Signature {
                type_signature: TypeSignature::VariadicAny,
                volatility: Volatility::Immutable,
            },
            aliases,
        }
    }

    /// Its name.
    pub fn name(&self) -> (r: &'static str)
        ensures
            r@ == "array_sort"@,
    {
        "array_sort"
    }

    /// Its signature.
    pub fn signature(&self) -> (r: &Signature)
        ensures
            *r == self.declared_signature(),
            *r == array_sort_signature(),
    {
        proof {
            use_type_invariant(self);
        }
        &self.signature
    }

    /// Its other names.
    pub fn aliases(&self) -> (r: &Vec<String>)
        ensures
            r@.map_values(|alias: String| alias@) == self.declared_aliases(),
            r@.map_values(|alias: String| alias@) == array_sort_aliases(),
    {
        proof {
            use_type_invariant(self);
        }
        &self.aliases
    }

    /// The type of its result for arguments of the given types.
    pub fn return_type(&self, arg_types: &[DataType]) -> (r: Result<DataType, ArraySortError>)
        requires
            arg_types@.len() > 0,
        ensures
            r == result_type(arrays::type_class(arg_types@[0])),
            r matches Ok(t) ==> arrays::type_class(t) == result_class(
                arrays::type_class(arg_types@[0]),
            ),
    {
        result_type_of(classify(&arg_types[0]))
    }

    /// Its documentation.
    pub fn documentation(&self) -> (r: Option<Documentation>)
        ensures
            r matches Some(doc) && is_array_sort_doc(doc),
    {
        Some(get_array_sort_doc())
    }
}

} // verus!
