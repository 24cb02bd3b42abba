//! What can go wrong in the client.

use vstd::prelude::*;

verus! {

/// The failures that the client reports.
#[derive(Debug, PartialEq, Eq)]
pub enum Error {
    /// The backend could not serve a request; the text says which.
    Backend(String),
    /// The executor rejected a call; the text is its message.
    Execution(String),
    /// A justification did not pass; the text is the hash of the header, in
    /// hexadecimal.
    BadJustification(String),
    /// The state holds no value under the key.
    NoValueForKey(Vec<u8>),
    /// The state holds no number of authorities.
    AuthLenEmpty,
    /// The number of authorities in the state is malformed.
    AuthLenInvalid,
    /// The state holds no authority at this index.
    AuthEmpty(u32),
    /// The authority at this index is malformed.
    AuthInvalid(u32),
    /// Bytes that should hold a value of the block model do not.
    Decode,
}

} // verus!
