use vstd::prelude::*;

verus! {

/// Why a fixed header could not be decoded. Every failure is terminal for the
/// decode attempt: no error is recovered internally.
#[derive(Debug, Clone, Copy, PartialEq, Eq, Structural)]
pub enum DecodeError {
    /// The packet-type code in the high nibble of byte 0 is reserved (0 or
    /// 15) or otherwise outside 1..=14; carries the rejected code.
    InvalidPacketType(u8),
    /// The input ended before the fixed header was fully decodable: no byte 0
    /// at all, or the remaining-length field cut short.
    UnexpectedEndOfInput,
    /// The remaining-length encoding ran to a fifth byte without terminating;
    /// the format permits at most four encoded bytes.
    MalformedVariableLength,
}

} // verus!
