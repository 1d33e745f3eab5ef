//! The one error type of the library.

use vstd::prelude::*;

verus! {

/// Why a name could not be encoded, a datagram could not be decoded, or a
/// response could not be accepted.
#[derive(Debug, Clone, Copy, PartialEq, Eq, Structural)]
pub enum DnsError {
    /// The buffer ended in the middle of a field.
    Truncated,
    /// A label's length octet carries one of the reserved bit patterns
    /// `01` and `10` in its two top bits.
    InvalidLabel,
    /// A component of a name in text has more than 63 octets.
    LabelTooLong,
    /// The wire form of a name has more than 255 octets.
    NameTooLong,
    /// A type or class code is not in the registry.
    UnsupportedCode,
    /// No record data layout is known for the record's class and type.
    UnsupportedRecordType,
    /// The octets that a record's data took differ from its declared length.
    RdataLengthMismatch,
    /// A compression pointer does not lead strictly backwards, or a name
    /// chains more pointers than `MAX_POINTER_HOPS`.
    PointerLoop,
    /// The response's transaction id is not that of the query.
    TransactionMismatch,
}

} // verus!
