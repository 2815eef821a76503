use vstd::prelude::*;

verus! {

/// A decoding or checking failure, carrying a human-readable message.
#[derive(Debug, Clone, PartialEq)]
pub struct Error {
    pub message: String,
}

/// Builds the `Err` value that every failing function of this crate returns.
pub fn error<T>(message: String) -> (r: Result<T, Error>)
    ensures
        r is Err,
        r->Err_0.message == message,
{
    Err(Error { message })
}

} // verus!
