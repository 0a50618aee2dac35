//! Wire protocol of a monitoring agent: a versioned message model and the
//! frame codec that turns messages into length-prefixed byte frames and back.

pub mod demo_protocol;
pub mod protocol;

pub use protocol::{
    AgentIdentity, BackpressureSignal, Message, MessageAck, MessageType, ProcessSample,
    ProtocolError, ProtocolVersion, SnapshotPayload,
};
