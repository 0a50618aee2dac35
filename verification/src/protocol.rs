//! The message model and the frame codec.

pub mod codec;
pub mod compress;
pub mod error;
pub mod kinds;
pub mod laws;
pub mod layout;
pub mod message;
pub mod reader;
pub mod version;
pub mod wire;
pub mod writer;

pub use codec::{FrameCodec, MAX_FRAME_SIZE, TARGET_FRAME_SIZE};
pub use error::ProtocolError;
pub use kinds::{MessageType, OsType};
pub use message::{
    AgentIdentity, BackpressureSignal, Envelope, Message, MessageAck, MessagePayload, Percent,
    ProcessSample, SnapshotPayload,
};
pub use version::ProtocolVersion;
