use graph_store::types::InputType;

#[test]
fn test_optional_type() {
    assert_eq!(Option::<i32>::graphql_type_name(), "Int");
    assert_eq!(Option::<i32>::qualified_type_name(), "Int");
    assert_eq!(&Option::<i32>::graphql_type_name(), "Int");
    assert_eq!(&Option::<i32>::qualified_type_name(), "Int");
}

#[test]
fn nested_option_keeps_the_inner_name() {
    assert_eq!(Option::<Option<String>>::graphql_type_name(), "String");
    assert_eq!(Option::<Option<String>>::qualified_type_name(), "String");
    assert_eq!(String::qualified_type_name(), "String!");
    assert_eq!(i32::qualified_type_name(), "Int!");
}
