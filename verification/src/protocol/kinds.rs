//! The closed sets of the protocol: message types and platforms, each bound
//! to one fixed byte on the wire.

use vstd::prelude::*;
use crate::protocol::error::ProtocolError;

verus! {

/// The kinds of message. Each has one stable wire byte, 1 to 7.
#[derive(Debug, Clone, Copy, PartialEq, Eq, Structural)]
pub enum MessageType {
    /// First message of an agent to the collector.
    Handshake,
    /// The collector's answer to a handshake.
    HandshakeAck,
    /// Periodic keepalive.
    Heartbeat,
    /// One sampling window of CPU, memory and processes.
    Snapshot,
    /// Acknowledgment of an earlier message.
    Ack,
    /// Throttle instruction from the collector.
    Backpressure,
    /// Error notification.
    Error,
}

impl MessageType {
    /// The wire byte of a message type.
    pub open spec fn wire_byte(self) -> u8 {
        match self {
            MessageType::Handshake => 1,
            MessageType::HandshakeAck => 2,
            MessageType::Heartbeat => 3,
            MessageType::Snapshot => 4,
            MessageType::Ack => 5,
            MessageType::Backpressure => 6,
            MessageType::Error => 7,
        }
    }

    /// The message type that a wire byte names, if it names one.
    pub open spec fn of_wire_byte(value: u8) -> Option<MessageType> {
        if value == 1 {
            Some(MessageType::Handshake)
        } else if value == 2 {
            Some(MessageType::HandshakeAck)
        } else if value == 3 {
            Some(MessageType::Heartbeat)
        } else if value == 4 {
            Some(MessageType::Snapshot)
        } else if value == 5 {
            Some(MessageType::Ack)
        } else if value == 6 {
            Some(MessageType::Backpressure)
        } else if value == 7 {
            Some(MessageType::Error)
        } else {
            None
        }
    }

    /// Reads a message type from its wire byte. Any byte outside 1..=7 is
    /// rejected, and the error carries it.
    pub fn from_u8(value: u8) -> (r: Result<MessageType, ProtocolError>)
        ensures
            match Self::of_wire_byte(value) {
                Some(t) => r == Ok::<MessageType, ProtocolError>(t),
                None => r == Err::<MessageType, ProtocolError>(
                    ProtocolError::InvalidMessageType(value),
                ),
            },
    {
        match value {
            1 => Ok(MessageType::Handshake),
            2 => Ok(MessageType::HandshakeAck),
            3 => Ok(MessageType::Heartbeat),
            4 => Ok(MessageType::Snapshot),
            5 => Ok(MessageType::Ack),
            6 => Ok(MessageType::Backpressure),
            7 => Ok(MessageType::Error),
            _ => Err(ProtocolError::InvalidMessageType(value)),
        }
    }

    /// The wire byte of this message type.
    pub fn to_u8(self) -> (b: u8)
        ensures
            b == self.wire_byte(),
    {
        match self {
            MessageType::Handshake => 1,
            MessageType::HandshakeAck => 2,
            MessageType::Heartbeat => 3,
            MessageType::Snapshot => 4,
            MessageType::Ack => 5,
            MessageType::Backpressure => 6,
            MessageType::Error => 7,
        }
    }

    /// Bytes and message types correspond one to one: reading back the byte
    /// of a type gives that type.
    pub proof fn lemma_wire_byte_round_trip(t: MessageType)
        ensures
            1 <= t.wire_byte() <= 7,
            Self::of_wire_byte(t.wire_byte()) == Some(t),
    {
    }

    /// A byte names a type exactly when it lies in 1..=7, and then the type's
    /// byte is that byte again.
    pub proof fn lemma_of_wire_byte(value: u8)
        ensures
            Self::of_wire_byte(value) is Some <==> 1 <= value <= 7,
            Self::of_wire_byte(value) matches Some(t) ==> t.wire_byte() == value,
    {
    }
}

/// The platform an agent runs on. Wire bytes 1 and 2.
#[derive(Debug, Clone, Copy, PartialEq, Eq, Structural)]
pub enum OsType {
    Windows,
    Linux,
}

impl OsType {
    /// The wire byte of a platform.
    pub open spec fn wire_byte(self) -> u8 {
        match self {
            OsType::Windows => 1,
            OsType::Linux => 2,
        }
    }

    /// The platform that a wire byte names, if it names one.
    pub open spec fn of_wire_byte(value: u8) -> Option<OsType> {
        if value == 1 {
            Some(OsType::Windows)
        } else if value == 2 {
            Some(OsType::Linux)
        } else {
            None
        }
    }

    /// Reads a platform from its wire byte. A byte other than 1 or 2 is
    /// reported as an invalid discriminant, with the byte.
    pub fn from_u8(value: u8) -> (r: Result<OsType, ProtocolError>)
        ensures
            match Self::of_wire_byte(value) {
                Some(p) => r == Ok::<OsType, ProtocolError>(p),
                None => r == Err::<OsType, ProtocolError>(ProtocolError::InvalidMessageType(value)),
            },
    {
        match value {
            1 => Ok(OsType::Windows),
            2 => Ok(OsType::Linux),
            _ => Err(ProtocolError::InvalidMessageType(value)),
        }
    }

    /// The wire byte of this platform.
    pub fn to_u8(self) -> (b: u8)
        ensures
            b == self.wire_byte(),
    {
        match self {
            OsType::Windows => 1,
            OsType::Linux => 2,
        }
    }

    /// Reading back the byte of a platform gives that platform.
    pub proof fn lemma_wire_byte_round_trip(p: OsType)
        ensures
            Self::of_wire_byte(p.wire_byte()) == Some(p),
    {
    }
}

} // verus!
