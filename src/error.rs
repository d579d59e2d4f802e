use vstd::prelude::*;

verus! {

/// Why reading or writing protocol data failed.
#[derive(Debug, Clone, Copy, PartialEq, Eq, Structural)]
pub enum ProtocolError {
    /// The input ended before the value was complete.
    UnexpectedEnd,
    /// A variable-length integer ran past its longest allowed form.
    VarIntTooLong,
    /// A boolean byte that was neither 0 nor 1.
    InvalidBool,
    /// Bytes that are not valid UTF-8 where a protocol string was expected.
    InvalidUtf8,
    /// Bytes that are not valid CESU-8 where an NBT string was expected.
    InvalidCesu8,
    /// A discriminant that names no variant.
    UnknownId,
    /// A length that is negative or does not fit the wire field.
    BadLength,
    /// A position component outside its signed range.
    PositionOutOfRange,
    /// An NBT list whose elements do not all have the same tag.
    ListTypeMismatch,
    /// An NBT compound that names two entries alike.
    DuplicateName,
    /// A string longer than its field allows.
    StringTooLong,
    /// Bytes left over in a frame after its packet was read.
    TrailingBytes,
    /// A compressed frame that did not inflate to its stated length.
    BadCompression,
    /// Encryption was asked for on a session that already encrypts.
    AlreadyEncrypted,
    /// A packet that the current state does not expect.
    UnexpectedPacket,
    /// The status pong did not echo the ping's payload.
    PingMismatch,
}

} // verus!
