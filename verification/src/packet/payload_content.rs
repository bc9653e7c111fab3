//! Payload content module.

use vstd::prelude::*;

use crate::packet::payload_type::PayloadType;

verus! {

/// Init the connection.
#[derive(Debug, Clone, PartialEq)]
pub struct Init {
    /// The sequence number to identify the packet.
    pub sequence_number: u32,
    /// Version of the protocol.
    pub version: String,
}

/// Acknowledge the Init.
#[derive(Debug, Clone, PartialEq)]
pub struct InitAck {
    /// The sequence number to identify the packet.
    pub sequence_number: u32,
    /// Version of the protocol.
    pub version: String,
}

/// Heartbeat to keep the connection alive.
#[derive(Debug, Clone, PartialEq)]
pub struct Heartbeat {
    /// The sequence number to identify the packet.
    pub sequence_number: u32,
}

/// Acknowledge the Heartbeat.
#[derive(Debug, Clone, PartialEq)]
pub struct HeartbeatAck {
    /// The sequence number to identify the packet.
    pub sequence_number: u32,
}

/// Device configuration.
#[derive(Debug, Clone, PartialEq)]
pub struct DeviceConfig {
    /// The sequence number to identify the packet.
    pub sequence_number: u32,
    /// The configuration of the device.
    pub config: String,
}

/// Acknowledge the Device configuration.
#[derive(Debug, Clone, PartialEq)]
pub struct DeviceConfigAck {
    /// The sequence number to identify the packet.
    pub sequence_number: u32,
}

/// The content of a payload.
#[derive(Debug, Clone, PartialEq)]
pub enum PayloadContent {
    /// Init the connection.
    Init(Init),
    /// Acknowledge the Init.
    InitAck(InitAck),
    /// Heartbeat to keep the connection alive.
    Heartbeat(Heartbeat),
    /// Acknowledge the Heartbeat.
    HeartbeatAck(HeartbeatAck),
    /// Device configuration.
    DeviceConfig(DeviceConfig),
    /// Acknowledge the Device configuration.
    DeviceConfigAck(DeviceConfigAck),
}

/// The mathematical shape of a payload content: sequence numbers as they
/// are, text fields as character sequences.
pub enum SpecPayloadContent {
    /// Init the connection.
    Init { sequence_number: u32, version: Seq<char> },
    /// Acknowledge the Init.
    InitAck { sequence_number: u32, version: Seq<char> },
    /// Heartbeat to keep the connection alive.
    Heartbeat { sequence_number: u32 },
    /// Acknowledge the Heartbeat.
    HeartbeatAck { sequence_number: u32 },
    /// Device configuration.
    DeviceConfig { sequence_number: u32, config: Seq<char> },
    /// Acknowledge the Device configuration.
    DeviceConfigAck { sequence_number: u32 },
}

impl SpecPayloadContent {
    /// The payload type a content codes for.
    pub open spec fn spec_payload_type(self) -> PayloadType {
        match self {
            SpecPayloadContent::Init { .. } => PayloadType::Init,
            SpecPayloadContent::InitAck { .. } => PayloadType::InitAck,
            SpecPayloadContent::Heartbeat { .. } => PayloadType::Heartbeat,
            SpecPayloadContent::HeartbeatAck { .. } => PayloadType::HeartbeatAck,
            SpecPayloadContent::DeviceConfig { .. } => PayloadType::DeviceConfig,
            SpecPayloadContent::DeviceConfigAck { .. } => PayloadType::DeviceConfigAck,
        }
    }
}

impl View for PayloadContent {
    type V = SpecPayloadContent;

    open spec fn view(&self) -> SpecPayloadContent {
        match self {
            PayloadContent::Init(c) => SpecPayloadContent::Init {
                sequence_number: c.sequence_number,
                version: c.version@,
            },
            PayloadContent::InitAck(c) => SpecPayloadContent::InitAck {
                sequence_number: c.sequence_number,
                version: c.version@,
            },
            PayloadContent::Heartbeat(c) => SpecPayloadContent::Heartbeat {
                sequence_number: c.sequence_number,
            },
            PayloadContent::HeartbeatAck(c) => SpecPayloadContent::HeartbeatAck {
                sequence_number: c.sequence_number,
            },
            PayloadContent::DeviceConfig(c) => SpecPayloadContent::DeviceConfig {
                sequence_number: c.sequence_number,
                config: c.config@,
            },
            PayloadContent::DeviceConfigAck(c) => SpecPayloadContent::DeviceConfigAck {
                sequence_number: c.sequence_number,
            },
        }
    }
}

impl PayloadContent {
    /// Returns the payload type associated with the content.
    pub fn payload_type(&self) -> (t: PayloadType)
        ensures
            t == self@.spec_payload_type(),
    {
        match self {
            PayloadContent::Init(_) => PayloadType::Init,
            PayloadContent::InitAck(_) => PayloadType::InitAck,
            PayloadContent::Heartbeat(_) => PayloadType::Heartbeat,
            PayloadContent::HeartbeatAck(_) => PayloadType::HeartbeatAck,
            PayloadContent::DeviceConfig(_) => PayloadType::DeviceConfig,
            PayloadContent::DeviceConfigAck(_) => PayloadType::DeviceConfigAck,
        }
    }
}

} // verus!
