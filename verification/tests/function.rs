use array_sort::arrays::TypeClass;
use array_sort::error::ArraySortError;
use array_sort::udf::{
    get_array_sort_doc, result_type_of, ArraySort, DocSection, TypeSignature, Volatility,
};
use arrow::datatypes::{DataType, Field};
use std::sync::Arc;

fn field(name: &str, item: DataType, nullable: bool) -> Arc<Field> {
    Arc::new(Field::new(name, item, nullable))
}

#[test]
fn declares_itself() {
    let function = ArraySort::new();
    assert_eq!(function.name(), "array_sort");
    assert_eq!(function.aliases(), &vec!["list_sort".to_string()]);
    assert_eq!(function.signature().type_signature, TypeSignature::VariadicAny);
    assert_eq!(function.signature().volatility, Volatility::Immutable);
}

#[test]
fn declares_the_type_of_its_result() {
    let function = ArraySort::new();
    let list = DataType::List(field("element", DataType::Utf8, false));
    let fixed = DataType::FixedSizeList(field("element", DataType::Utf8, false), 3);
    let large = DataType::LargeList(field("element", DataType::Utf8, false));
    let expected = DataType::List(field("item", DataType::Utf8, true));
    assert_eq!(function.return_type(&[list]).unwrap(), expected);
    assert_eq!(function.return_type(&[fixed, DataType::Utf8]).unwrap(), expected);
    let expected = DataType::LargeList(field("item", DataType::Utf8, true));
    assert_eq!(function.return_type(&[large]).unwrap(), expected);
}

#[test]
fn declares_no_type_for_other_arguments() {
    let function = ArraySort::new();
    let run = DataType::RunEndEncoded(
        field("run_ends", DataType::Int32, false),
        field("values", DataType::Utf8, true),
    );
    let dictionary = DataType::Dictionary(Box::new(DataType::Int32), Box::new(DataType::Utf8));
    for other in [DataType::Int32, DataType::Utf8, DataType::Boolean, DataType::Null, run, dictionary]
    {
        let error = function.return_type(&[other]).unwrap_err();
        assert!(matches!(error, ArraySortError::ArgumentType));
        assert_eq!(
            error.message(),
            Some("Not reachable, data_type should be List, LargeList or FixedSizeList")
        );
    }
}

#[test]
fn result_types_of_classes() {
    let list = result_type_of(TypeClass::List(DataType::Int8)).unwrap();
    assert_eq!(list, DataType::List(field("item", DataType::Int8, true)));
    let fixed = result_type_of(TypeClass::FixedSizeList(DataType::Int8, 2)).unwrap();
    assert_eq!(fixed, list);
    let large = result_type_of(TypeClass::LargeList(DataType::Int8)).unwrap();
    assert_eq!(large, DataType::LargeList(field("item", DataType::Int8, true)));
    assert!(matches!(
        result_type_of(TypeClass::Primitive),
        Err(ArraySortError::ArgumentType)
    ));
    assert!(matches!(
        result_type_of(TypeClass::Dictionary(DataType::Int8, DataType::Int8)),
        Err(ArraySortError::ArgumentType)
    ));
}

#[test]
fn the_declared_type_is_kept() {
    let function = ArraySort::new();
    for class in [
        TypeClass::List(DataType::Utf8),
        TypeClass::LargeList(DataType::Utf8),
        TypeClass::FixedSizeList(DataType::Utf8, 3),
    ] {
        let declared = result_type_of(class).unwrap();
        assert_eq!(function.return_type(&[declared.clone()]).unwrap(), declared);
    }
}

#[test]
fn documents_itself() {
    let doc = ArraySort::new().documentation().expect("documented");
    assert_eq!(doc.section, DocSection::Array);
    assert_eq!(doc.description, "Sort array.");
    assert_eq!(doc.syntax_example, "array_sort(array, desc, nulls_first)");
    let lines: Vec<&str> = doc.sql_example.lines().collect();
    assert_eq!(lines.len(), 8);
    assert_eq!(lines[0], "```sql");
    assert_eq!(lines[1], "> select array_sort([3, 1, 2]);");
    assert_eq!(lines[3], "| array_sort(List([3,1,2]))   |");
    assert_eq!(lines[5], "| [1, 2, 3]                   |");
    assert_eq!(lines[7], "```");
    let names: Vec<&str> = doc.arguments.iter().map(|a| a.name.as_str()).collect();
    assert_eq!(names, vec!["array", "desc", "nulls_first"]);
    assert_eq!(
        get_array_sort_doc().arguments[1].description,
        "Whether to sort in descending order(`ASC` or `DESC`)."
    );
}
