//! Names of schema types and fields.
use vstd::prelude::*;

verus! {

pub open spec fn is_ascii_upper(c: char) -> bool {
    65 <= (c as u32) <= 90
}

pub open spec fn is_ascii_lower(c: char) -> bool {
    97 <= (c as u32) <= 122
}

pub open spec fn ascii_lower(c: char) -> char {
    if is_ascii_upper(c) {
        ((c as u32) + 32) as char
    } else {
        c
    }
}

pub open spec fn ascii_upper(c: char) -> char {
    if is_ascii_lower(c) {
        ((c as u32) - 32) as char
    } else {
        c
    }
}

/// The snake-case form of a name: each ASCII capital lowered, with an
/// underscore before it unless it is the first character.
pub open spec fn snake_of(s: Seq<char>) -> Seq<char>
    decreases s.len(),
{
    if s.len() == 0 {
        Seq::empty()
    } else {
        let c = s.last();
        snake_of(s.drop_last()) + if is_ascii_upper(c) {
            if s.len() == 1 {
                seq![ascii_lower(c)]
            } else {
                seq!['_', ascii_lower(c)]
            }
        } else {
            seq![c]
        }
    }
}

/// Reading a name for its lower camel-case form: what is written so far,
/// whether the next letter starts a word, and whether the leading
/// underscores are behind.
pub open spec fn camel_state(s: Seq<char>) -> (Seq<char>, bool, bool)
    decreases s.len(),
{
    if s.len() == 0 {
        (Seq::empty(), false, false)
    } else {
        let (out, new_word, started) = camel_state(s.drop_last());
        let c = s.last();
        if !started && c == '_' {
            (out, new_word, false)
        } else if c == '_' {
            (out, true, true)
        } else if new_word {
            (out.push(ascii_upper(c)), false, true)
        } else {
            (out.push(c), false, true)
        }
    }
}

/// The lower camel-case form of a name: leading underscores dropped, every
/// other underscore dropped with the letter after it raised to a capital.
pub open spec fn camel_lower_of(s: Seq<char>) -> Seq<char> {
    camel_state(s).0
}

/// Relies on `case::CaseExt::to_snake`, which writes the snake-case form.
#[verifier::external_body]
fn to_snake(s: &str) -> (r: String)
    ensures
        r@ == snake_of(s@),
{
    case::CaseExt::to_snake(s)
}

/// Relies on `case::CaseExt::to_camel_lowercase`, which writes the lower
/// camel-case form.
#[verifier::external_body]
fn to_camel_lowercase(s: &str) -> (r: String)
    ensures
        r@ == camel_lower_of(s@),
{
    case::CaseExt::to_camel_lowercase(s)
}

/// The lower camel-case form of a field name, read through its snake-case
/// form so that existing capitals start words.
pub fn to_lower_camelcase(field: &str) -> (r: String)
    ensures
        r@ == camel_lower_of(snake_of(field@)),
{
    let snake = to_snake(field);
    to_camel_lowercase(snake.as_str())
}

pub open spec fn is_primitive_name(name: Seq<char>) -> bool {
    name == "String"@ || name == "Float"@ || name == "Boolean"@ || name == "ID"@ || name == "Int"@
}

fn same(a: &String, b: &str) -> (r: bool)
    ensures
        r == (a@ == b@),
{
    let b = String::from_str(b);
    a.eq(&b)
}

/// Whether a named type is one of the built-in scalars.
pub fn is_type_primitive_internal(name: &str) -> (r: bool)
    ensures
        r == is_primitive_name(name@),
{
    let n = String::from_str(name);
    same(&n, "String") || same(&n, "Float") || same(&n, "Boolean") || same(&n, "ID") || same(&n, "Int")
}

} // verus!
