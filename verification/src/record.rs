//! Fields of the entries that reminders and birthdays are stored as.
use vstd::prelude::*;

verus! {

/// One field of a stored entry, as far as the bot reads it.
#[derive(Debug, PartialEq, Eq)]
pub enum Field {
    /// The entry has no such field.
    Missing,
    /// A 64-bit integer.
    Int64(i64),
    /// A string.
    Text(String),
    /// A value of any other kind.
    Other,
}

/// The text of an optional string slice.
pub open spec fn opt_str_view(o: Option<&str>) -> Option<Seq<char>> {
    match o {
        Some(s) => Some(s@),
        None => None,
    }
}

/// The text of a field, where it holds a string.
pub open spec fn field_text(f: Field) -> Option<Seq<char>> {
    match f {
        Field::Text(s) => Some(s@),
        _ => None,
    }
}

/// The text of an optional string.
pub open spec fn opt_string_view(o: Option<String>) -> Option<Seq<char>> {
    match o {
        Some(s) => Some(s@),
        None => None,
    }
}

/// The text of a field that holds a string.
pub fn field_as_str(f: &Field) -> (r: Option<String>)
    ensures
        opt_string_view(r) == field_text(*f),
{
    match f {
        Field::Text(s) => Some(s.clone()),
        _ => None,
    }
}

} // verus!
