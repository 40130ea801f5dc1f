use vstd::prelude::*;

use crate::error::DecodeError;

verus! {

/// The control packet kinds, one per wire code 1..=14. Codes 0 and 15 are
/// reserved and never map to a variant.
#[derive(Debug, Clone, Copy, PartialEq, Eq, Structural)]
pub enum PacketType {
    Connect,
    Connack,
    Publish,
    Puback,
    PubRec,
    PubRel,
    PubComp,
    Subscribe,
    Suback,
    Unsubscribe,
    Unsuback,
    PingReq,
    PingResp,
    Disconnect,
}

/// The packet kind a wire code stands for, or `None` for the reserved codes
/// 0 and 15 and for anything above 15.
pub open spec fn packet_type_of(code: u8) -> Option<PacketType> {
    if code == 1 {
        Some(PacketType::Connect)
    } else if code == 2 {
        Some(PacketType::Connack)
    } else if code == 3 {
        Some(PacketType::Publish)
    } else if code == 4 {
        Some(PacketType::Puback)
    } else if code == 5 {
        Some(PacketType::PubRec)
    } else if code == 6 {
        Some(PacketType::PubRel)
    } else if code == 7 {
        Some(PacketType::PubComp)
    } else if code == 8 {
        Some(PacketType::Subscribe)
    } else if code == 9 {
        Some(PacketType::Suback)
    } else if code == 10 {
        Some(PacketType::Unsubscribe)
    } else if code == 11 {
        Some(PacketType::Unsuback)
    } else if code == 12 {
        Some(PacketType::PingReq)
    } else if code == 13 {
        Some(PacketType::PingResp)
    } else if code == 14 {
        Some(PacketType::Disconnect)
    } else {
        None
    }
}

impl PacketType {
    /// Resolves a wire code to its packet kind; every code outside 1..=14 is
    /// rejected with `InvalidPacketType` carrying the code itself.
    pub fn try_from(value: u8) -> (r: Result<PacketType, DecodeError>)
        ensures
            r == match packet_type_of(value) {
                Some(t) => Ok::<PacketType, DecodeError>(t),
                None => Err::<PacketType, DecodeError>(DecodeError::InvalidPacketType(value)),
            },
            r is Ok <==> 1 <= value <= 14,
    {
        match value {
            1 => Ok(PacketType::Connect),
            2 => Ok(PacketType::Connack),
            3 => Ok(PacketType::Publish),
            4 => Ok(PacketType::Puback),
            5 => Ok(PacketType::PubRec),
            6 => Ok(PacketType::PubRel),
            7 => Ok(PacketType::PubComp),
            8 => Ok(PacketType::Subscribe),
            9 => Ok(PacketType::Suback),
            10 => Ok(PacketType::Unsubscribe),
            11 => Ok(PacketType::Unsuback),
            12 => Ok(PacketType::PingReq),
            13 => Ok(PacketType::PingResp),
            14 => Ok(PacketType::Disconnect),
            _ => Err(DecodeError::InvalidPacketType(value)),
        }
    }
}

} // verus!
