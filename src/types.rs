//! The names under which values appear in the schema.
use vstd::prelude::*;

verus! {

/// A type that the schema can take as input, and its name there.
pub trait InputType {
    spec fn spec_graphql_type_name() -> Seq<char>;

    spec fn spec_qualified_type_name() -> Seq<char>;

    /// The name of the type in the schema.
    fn graphql_type_name() -> (r: String)
        ensures
            r@ == Self::spec_graphql_type_name(),
    ;

    /// The name of the type with its qualifiers: `!` for a type whose
    /// values are never null.
    fn qualified_type_name() -> (r: String)
        ensures
            r@ == Self::spec_qualified_type_name(),
    ;
}

impl InputType for i32 {
    open spec fn spec_graphql_type_name() -> Seq<char> {
        "Int"@
    }

    open spec fn spec_qualified_type_name() -> Seq<char> {
        "Int!"@
    }

    fn graphql_type_name() -> (r: String) {
        String::from_str("Int")
    }

    fn qualified_type_name() -> (r: String) {
        String::from_str("Int!")
    }
}

impl InputType for String {
    open spec fn spec_graphql_type_name() -> Seq<char> {
        "String"@
    }

    open spec fn spec_qualified_type_name() -> Seq<char> {
        "String!"@
    }

    fn graphql_type_name() -> (r: String) {
        String::from_str("String")
    }

    fn qualified_type_name() -> (r: String) {
        String::from_str("String!")
    }
}

/// An optional value has the name of the value, without the `!` that says
/// the value is never null.
impl<T: InputType> InputType for Option<T> {
    open spec fn spec_graphql_type_name() -> Seq<char> {
        T::spec_graphql_type_name()
    }

    open spec fn spec_qualified_type_name() -> Seq<char> {
        T::spec_graphql_type_name()
    }

    fn graphql_type_name() -> (r: String) {
        T::graphql_type_name()
    }

    fn qualified_type_name() -> (r: String) {
        T::graphql_type_name()
    }
}

} // verus!
