//! The library's error type.
use vstd::prelude::*;

verus! {

/// A failure the library reports to its caller: a configuration problem
/// (unknown mode, no cache directory), a tool refusing its input, or a
/// file-system operation of the host failing.
#[derive(Debug)]
pub enum Error {
    Config(String),
    Tool(String),
    Io(String),
}

impl Error {
    /// The message the error carries.
    pub fn message(&self) -> (r: String)
        ensures
            r@ == match self {
                Error::Config(m) => m@,
                Error::Tool(m) => m@,
                Error::Io(m) => m@,
            },
    {
        match self {
            Error::Config(m) => m.clone(),
            Error::Tool(m) => m.clone(),
            Error::Io(m) => m.clone(),
        }
    }
}

} // verus!
