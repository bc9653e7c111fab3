//! Payload type module.

use vstd::prelude::*;

verus! {

/// The payload type of the packet, a closed enumeration carried on the wire
/// as a 16-bit code.
#[derive(Debug, Clone, Copy, PartialEq, Eq, Structural)]
pub enum PayloadType {
    /// Init the connection.
    Init,
    /// Acknowledge the Init.
    InitAck,
    /// Heartbeat to keep the connection alive.
    Heartbeat,
    /// Acknowledge the Heartbeat.
    HeartbeatAck,
    /// Device configuration.
    DeviceConfig,
    /// Acknowledge the Device configuration.
    DeviceConfigAck,
}

impl PayloadType {
    /// The 16-bit code of this payload type.
    pub open spec fn spec_to_u16(self) -> u16 {
        match self {
            PayloadType::Init => 1,
            PayloadType::InitAck => 2,
            PayloadType::Heartbeat => 3,
            PayloadType::HeartbeatAck => 4,
            PayloadType::DeviceConfig => 5,
            PayloadType::DeviceConfigAck => 6,
        }
    }

    /// The payload type of a 16-bit code, if the code is one.
    pub open spec fn spec_from_u16(value: u16) -> Option<PayloadType> {
        if value == 1 {
            Some(PayloadType::Init)
        } else if value == 2 {
            Some(PayloadType::InitAck)
        } else if value == 3 {
            Some(PayloadType::Heartbeat)
        } else if value == 4 {
            Some(PayloadType::HeartbeatAck)
        } else if value == 5 {
            Some(PayloadType::DeviceConfig)
        } else if value == 6 {
            Some(PayloadType::DeviceConfigAck)
        } else {
            None
        }
    }

    /// Converts the given u16 to the payload type it codes for, if any.
    pub fn from_u16(value: u16) -> (r: Option<PayloadType>)
        ensures
            r == PayloadType::spec_from_u16(value),
            r matches Some(t) ==> t.spec_to_u16() == value,
            r is None ==> forall|t: PayloadType| #[trigger] t.spec_to_u16() != value,
    {
        match value {
            1 => Some(PayloadType::Init),
            2 => Some(PayloadType::InitAck),
            3 => Some(PayloadType::Heartbeat),
            4 => Some(PayloadType::HeartbeatAck),
            5 => Some(PayloadType::DeviceConfig),
            6 => Some(PayloadType::DeviceConfigAck),
            _ => None,
        }
    }

    /// The 16-bit code of this payload type.
    pub fn to_u16(self) -> (v: u16)
        ensures
            v == self.spec_to_u16(),
    {
        match self {
            PayloadType::Init => 1,
            PayloadType::InitAck => 2,
            PayloadType::Heartbeat => 3,
            PayloadType::HeartbeatAck => 4,
            PayloadType::DeviceConfig => 5,
            PayloadType::DeviceConfigAck => 6,
        }
    }
}

} // verus!
