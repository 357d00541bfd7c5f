use vstd::prelude::*;

verus! {

/// The ways an operation of the store can fail.
#[derive(Debug, Clone, Copy, PartialEq, Eq, Structural)]
pub enum PineError {
    /// Creating, reading, writing or removing a file or directory failed.
    Io,
    /// A record could not be encoded, or bytes could not be decoded as one.
    Bincode,
    /// An index entry does not hold valid UTF-8 text.
    Utf8,
    /// A location cannot be written as text.
    PathConversion,
}

impl PineError {
    /// A short description of the error.
    pub fn message(&self) -> (r: String)
        ensures
            *self == PineError::Io ==> r@ == "IO error"@,
            *self == PineError::Bincode ==> r@ == "Bincode error"@,
            *self == PineError::Utf8 ==> r@ == "Utf8 error"@,
            *self == PineError::PathConversion ==> r@ == "Path conversion error"@,
    {
        match self {
            PineError::Io => String::from_str("IO error"),
            PineError::Bincode => String::from_str("Bincode error"),
            PineError::Utf8 => String::from_str("Utf8 error"),
            PineError::PathConversion => String::from_str("Path conversion error"),
        }
    }
}

} // verus!
