use vstd::prelude::*;

verus! {

/// A value kept in a map of the store: a string, an integer, or null.
pub enum H2RustType {
    String(String),
    Integer(i32),
    Null,
}

/// The characters of a string value; empty for other values.
pub open spec fn string_value(t: H2RustType) -> Seq<char> {
    match t {
        H2RustType::String(s) => s@,
        _ => Seq::empty(),
    }
}

impl Clone for H2RustType {
    /// A copy of the value.
    fn clone(&self) -> (r: H2RustType)
        ensures
            r == *self,
    {
        match self {
            H2RustType::String(s) => H2RustType::String(s.clone()),
            H2RustType::Integer(i) => H2RustType::Integer(*i),
            H2RustType::Null => H2RustType::Null,
        }
    }
}

impl H2RustType {
    /// The string of a string value.
    pub fn castAsStringRef(&self) -> (r: &String)
        requires
            self is String,
        ensures
            r@ == string_value(*self),
    {
        match self {
            H2RustType::String(s) => s,
            _ => vstd::pervasive::unreached(),
        }
    }

    /// Whether the value is null.
    pub fn isNull(&self) -> (r: bool)
        ensures
            r == self is Null,
    {
        match self {
            H2RustType::Null => true,
            _ => false,
        }
    }

    /// A copy of the string of a string value; `None` for null.
    pub fn toString(&self) -> (r: Option<String>)
        requires
            !(self is Integer),
        ensures
            self is Null ==> r is None,
            self is String ==> (r matches Some(s) && s@ == string_value(*self)),
    {
        match self {
            H2RustType::String(s) => Some(s.clone()),
            _ => None,
        }
    }
}

} // verus!
