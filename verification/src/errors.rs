use vstd::prelude::*;

verus! {

/// An error of the engine that carries its message.
pub enum H2RustError {
    /// An error of an SQL statement, with its message.
    SQLError(String),
}

impl H2RustError {
    /// The message of the error.
    pub fn to_display_string(&self) -> (s: String)
        ensures
            match self {
                H2RustError::SQLError(m) => s@ == m@,
            },
    {
        match self {
            H2RustError::SQLError(m) => m.clone(),
        }
    }
}

} // verus!
