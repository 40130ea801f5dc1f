use vstd::prelude::*;
use vstd::slice::slice_subrange;

use crate::error::DecodeError;
use crate::packet_type::{packet_type_of, PacketType};
use crate::remaining_length::{
    consumed_len, decode_error, decoded, decodes, remaining_length, REMAINING_LENGTH_MAX,
};

verus! {

/// The fixed header that opens every control packet. Constructed once per
/// decode and immutable thereafter.
#[derive(Debug, Clone, Copy, PartialEq, Eq, Structural)]
pub struct FixedHeader {
    /// The control packet's kind.
    pub packet_type: PacketType,
    /// The four flag bits specific to each packet kind, carried unchanged and
    /// not interpreted here.
    pub packet_flags: u8,
    /// How many bytes of variable header and payload follow the fixed header.
    pub remaining_length: u32,
}

/// The packet-type code of a frame's first byte: its high nibble.
pub open spec fn type_code(b: u8) -> u8 {
    b / 16
}

/// The flag bits of a frame's first byte: its low nibble.
pub open spec fn flags(b: u8) -> u8 {
    b % 16
}

/// A frame opens with a decodable fixed header when it is non-empty, byte 0
/// carries a known packet-type code, and the remaining-length field that
/// follows byte 0 terminates in time.
pub open spec fn header_decodes(s: Seq<u8>) -> bool {
    &&& s.len() > 0
    &&& packet_type_of(type_code(s[0])) is Some
    &&& decodes(s.skip(1))
}

/// The header read from the front of a decodable frame.
pub open spec fn header_of(s: Seq<u8>) -> FixedHeader {
    FixedHeader {
        packet_type: packet_type_of(type_code(s[0]))->Some_0,
        packet_flags: flags(s[0]),
        remaining_length: decoded(s.skip(1)) as u32,
    }
}

/// How many bytes the fixed header occupies: byte 0 plus the encoded
/// remaining-length field.
pub open spec fn header_len(s: Seq<u8>) -> int {
    1 + consumed_len(s.skip(1))
}

/// The error a frame without a decodable fixed header produces: an empty
/// frame ended too early; a reserved type code is invalid; otherwise the
/// remaining-length field is at fault.
pub open spec fn header_error(s: Seq<u8>) -> DecodeError {
    if s.len() == 0 {
        DecodeError::UnexpectedEndOfInput
    } else if packet_type_of(type_code(s[0])) is None {
        DecodeError::InvalidPacketType(type_code(s[0]))
    } else {
        decode_error(s.skip(1))
    }
}

/// Reads the first byte of a frame and splits it: the high nibble resolved to
/// a packet kind, the low nibble returned unchanged as the flag bits.
pub fn packet_byte(input: &[u8]) -> (r: Result<(PacketType, u8), DecodeError>)
    ensures
        input@.len() == 0 ==> r == Err::<(PacketType, u8), DecodeError>(
            DecodeError::UnexpectedEndOfInput,
        ),
        input@.len() > 0 ==> r == match packet_type_of(type_code(input@[0])) {
            Some(t) => Ok::<(PacketType, u8), DecodeError>((t, flags(input@[0]))),
            None => Err::<(PacketType, u8), DecodeError>(
                DecodeError::InvalidPacketType(type_code(input@[0])),
            ),
        },
{
    if input.len() == 0 {
        return Err(DecodeError::UnexpectedEndOfInput);
    }
    let b = input[0];
    match PacketType::try_from(b / 16) {
        Ok(t) => Ok((t, b % 16)),
        Err(e) => Err(e),
    }
}

impl FixedHeader {
    /// Decodes the fixed header from the front of a frame, returning it
    /// together with the unconsumed suffix: the variable header and payload,
    /// which are a downstream consumer's concern. Any failure is terminal and
    /// reported exactly; nothing is retried or recovered here.
    pub fn parse<'a>(input: &'a [u8]) -> (r: Result<(FixedHeader, &'a [u8]), DecodeError>)
        ensures
            r is Ok <==> header_decodes(input@),
            r matches Ok((h, rest)) ==> {
                &&& h == header_of(input@)
                &&& h.remaining_length <= REMAINING_LENGTH_MAX
                &&& rest@ == input@.skip(header_len(input@))
            },
            r matches Err(e) ==> e == header_error(input@),
    {
        let (packet_type, packet_flags) = match packet_byte(input) {
            Ok(p) => p,
            Err(e) => return Err(e),
        };
        let after_first = slice_subrange(input, 1, input.len());
        let (value, used) = match remaining_length(after_first) {
            Ok(d) => d,
            Err(e) => return Err(e),
        };
        let rest = slice_subrange(input, 1 + used, input.len());
        Ok((
            FixedHeader { packet_type, packet_flags, remaining_length: value },
            rest,
        ))
    }
}

} // verus!
