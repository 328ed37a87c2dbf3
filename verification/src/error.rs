use vstd::prelude::*;

verus! {

/// The decoder's failure taxonomy. Every failed decode attempt is terminal:
/// no partial transaction is ever returned.
#[derive(Clone, Copy, Debug, PartialEq, Eq, Structural)]
pub enum TxError {
    /// The buffer was exhausted before a required field could be read in full.
    InsufficientData,
    /// The hexadecimal input text was not a well-formed even-length string of
    /// hexadecimal digits.
    MalformedInput,
}

} // verus!
