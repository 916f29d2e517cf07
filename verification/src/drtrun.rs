use vstd::prelude::*;
use crate::text::{find_char, find_first, str_equal};

verus! {

/// The kind of item that a `kind:rest` word of the `drtrun` command line names.
#[derive(Debug, Clone, Copy, PartialEq, Eq)]
pub enum Type {
    Template,
    InputFile,
    OutputFile,
    Variable,
    Unknown,
}

/// The kind that a name stands for.
pub open spec fn type_named(s: Seq<char>) -> Type {
    if s == "t"@ {
        Type::Template
    } else if s == "of"@ {
        Type::OutputFile
    } else if s == "if"@ {
        Type::InputFile
    } else if s == "v"@ {
        Type::Variable
    } else {
        Type::Unknown
    }
}

/// The start of `input` up to and including its first `:`.
pub fn drain_to(input: String, ch: char) -> (st: String)
    requires
        input@.contains(':'),
    ensures
        st@ == input@.subrange(0, find_char(input@, ':') + 1),
{
    match find_first(input.as_str(), ':') {
        Some(offset) => input.as_str().substring_char(0, offset + 1).to_owned(),
        None => String::new(),
    }
}

/// Splits `input` at its first `sep` into the part before and the part after.
fn split_once(input: &str, sep: char) -> (r: (String, String))
    requires
        input@.contains(sep),
    ensures
        r.0@ == input@.subrange(0, find_char(input@, sep)),
        r.1@ == input@.subrange(find_char(input@, sep) + 1, input@.len() as int),
{
    match find_first(input, sep) {
        Some(k) => {
            let n = input.unicode_len();
            (input.substring_char(0, k).to_owned(), input.substring_char(k + 1, n).to_owned())
        },
        None => (String::new(), String::new()),
    }
}

/// The kind that a `kind:rest` word names, and the rest after the first `:`.
pub fn parse_type(input: String) -> (r: (Type, String))
    requires
        input@.contains(':'),
    ensures
        r.0 == type_named(input@.subrange(0, find_char(input@, ':'))),
        r.1@ == input@.subrange(find_char(input@, ':') + 1, input@.len() as int),
{
    let (typename, remain) = split_once(input.as_str(), ':');
    let t = if str_equal(typename.as_str(), "t") {
        Type::Template
    } else if str_equal(typename.as_str(), "of") {
        Type::OutputFile
    } else if str_equal(typename.as_str(), "if") {
        Type::InputFile
    } else if str_equal(typename.as_str(), "v") {
        Type::Variable
    } else {
        Type::Unknown
    };
    (t, remain)
}

/// The key and the value of a `key=value` word, split at the first `=`.
pub fn split_assignment(remain: &str) -> (r: (String, String))
    requires
        remain@.contains('='),
    ensures
        r.0@ == remain@.subrange(0, find_char(remain@, '=')),
        r.1@ == remain@.subrange(find_char(remain@, '=') + 1, remain@.len() as int),
{
    split_once(remain, '=')
}

} // verus!
