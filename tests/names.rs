use graph_store::names::{is_type_primitive_internal, to_lower_camelcase};

#[test]
fn lower_camelcase_of_capitalised_names() {
    assert_eq!(to_lower_camelcase("FooBar"), "fooBar");
    assert_eq!(to_lower_camelcase("postsToday"), "postsToday");
    assert_eq!(to_lower_camelcase("snake_case_name"), "snakeCaseName");
    assert_eq!(to_lower_camelcase("__leading_Under"), "leadingUnder");
    assert_eq!(to_lower_camelcase(""), "");
}

#[test]
fn primitive_type_names() {
    for name in ["String", "Float", "Boolean", "ID", "Int"] {
        assert!(is_type_primitive_internal(name));
    }
    assert!(!is_type_primitive_internal("Post"));
    assert!(!is_type_primitive_internal("int"));
    assert!(!is_type_primitive_internal(""));
}
