//! The message model: the envelope, the payloads, and their mathematical views.
//!
//! Every value is built whole by the caller and handed to the codec by
//! reference. The view of a value replaces strings by sequences of
//! characters, vectors and byte arrays by sequences; the wire layout is
//! stated over views.

use vstd::prelude::*;
use crate::protocol::kinds::{MessageType, OsType};
use crate::protocol::version::ProtocolVersion;

verus! {

/// A percentage, kept as the bit pattern of an IEEE 754 single-precision
/// number. The codec carries the pattern through unchanged and never
/// interprets it.
#[derive(Debug, Clone, Copy, PartialEq, Eq, Structural)]
pub struct Percent {
    pub bits: u32,
}

/// Who an agent is, as sent in a handshake.
#[derive(Debug, Clone, PartialEq, Eq)]
pub struct AgentIdentity {
    /// Identifier of this running agent.
    pub instance_id: String,
    /// Platform of the agent.
    pub os_type: OsType,
    /// Version of the agent's software.
    pub agent_version: String,
    /// Protocol version that the agent speaks.
    pub protocol_version: ProtocolVersion,
    /// Capability bits: bit 0 is all-process mode, bit 1 is compression.
    pub capabilities: u32,
}

/// The mathematical value of an [`AgentIdentity`].
pub ghost struct AgentIdentityView {
    pub instance_id: Seq<char>,
    pub os_type: OsType,
    pub agent_version: Seq<char>,
    pub protocol_version: ProtocolVersion,
    pub capabilities: u32,
}

impl View for AgentIdentity {
    type V = AgentIdentityView;

    open spec fn view(&self) -> AgentIdentityView {
        AgentIdentityView {
            instance_id: self.instance_id@,
            os_type: self.os_type,
            agent_version: self.agent_version@,
            protocol_version: self.protocol_version,
            capabilities: self.capabilities,
        }
    }
}

impl AgentIdentity {
    /// Capability bit: the agent can report every process.
    pub const CAP_ALL_PROCESS: u32 = 0x01;

    /// Capability bit: the agent can compress payloads.
    pub const CAP_COMPRESSION: u32 = 0x02;

    /// Whether bit 0 of the capability mask is set.
    pub open spec fn has_all_process(capabilities: u32) -> bool {
        capabilities & 0x01 != 0
    }

    /// Whether bit 1 of the capability mask is set.
    pub open spec fn has_compression(capabilities: u32) -> bool {
        capabilities & 0x02 != 0
    }

    /// Whether the agent declares all-process mode.
    pub fn supports_all_process(&self) -> (yes: bool)
        ensures
            yes == Self::has_all_process(self.capabilities),
    {
        (self.capabilities & Self::CAP_ALL_PROCESS) != 0
    }

    /// Whether the agent declares compression.
    pub fn supports_compression(&self) -> (yes: bool)
        ensures
            yes == Self::has_compression(self.capabilities),
    {
        (self.capabilities & Self::CAP_COMPRESSION) != 0
    }

    /// Each predicate reads its own bit and no other: setting or clearing
    /// any other bit of the mask leaves its answer as it was, and the two
    /// named bits alone give the four expected answers.
    pub proof fn lemma_capability_bits(capabilities: u32, other: u32)
        ensures
            other & 0x01 == 0 ==> Self::has_all_process(capabilities | other)
                == Self::has_all_process(capabilities),
            other & 0x01 == 0 ==> Self::has_all_process(capabilities & !other)
                == Self::has_all_process(capabilities),
            other & 0x02 == 0 ==> Self::has_compression(capabilities | other)
                == Self::has_compression(capabilities),
            other & 0x02 == 0 ==> Self::has_compression(capabilities & !other)
                == Self::has_compression(capabilities),
            Self::has_all_process(0x01) && !Self::has_compression(0x01),
            !Self::has_all_process(0x02) && Self::has_compression(0x02),
            Self::has_all_process(0x03) && Self::has_compression(0x03),
            !Self::has_all_process(0) && !Self::has_compression(0),
    {
        assert(other & 0x01 == 0 ==> ((capabilities | other) & 0x01 != 0) == (capabilities & 0x01
            != 0)) by (bit_vector);
        assert(other & 0x01 == 0 ==> ((capabilities & !other) & 0x01 != 0) == (capabilities & 0x01
            != 0)) by (bit_vector);
        assert(other & 0x02 == 0 ==> ((capabilities | other) & 0x02 != 0) == (capabilities & 0x02
            != 0)) by (bit_vector);
        assert(other & 0x02 == 0 ==> ((capabilities & !other) & 0x02 != 0) == (capabilities & 0x02
            != 0)) by (bit_vector);
        assert(0x01u32 & 0x01 != 0 && 0x01u32 & 0x02 == 0) by (bit_vector);
        assert(0x02u32 & 0x01 == 0 && 0x02u32 & 0x02 != 0) by (bit_vector);
        assert(0x03u32 & 0x01 != 0 && 0x03u32 & 0x02 != 0) by (bit_vector);
        assert(0u32 & 0x01 == 0 && 0u32 & 0x02 == 0) by (bit_vector);
    }
}

/// One sampled process.
#[derive(Debug, Clone, PartialEq, Eq)]
pub struct ProcessSample {
    /// Process identifier.
    pub pid: u32,
    /// Process name.
    pub name: String,
    /// CPU usage.
    pub cpu_percent: Percent,
    /// Resident memory in bytes.
    pub memory_bytes: u64,
    /// Resident memory as a share of the machine's memory.
    pub memory_percent: Percent,
    /// Command line; absent where policy withholds it.
    pub cmdline: Option<String>,
}

/// The mathematical value of a [`ProcessSample`].
pub ghost struct ProcessSampleView {
    pub pid: u32,
    pub name: Seq<char>,
    pub cpu_percent: Percent,
    pub memory_bytes: u64,
    pub memory_percent: Percent,
    pub cmdline: Option<Seq<char>>,
}

/// The view of an optional string.
pub open spec fn opt_string_view(s: Option<String>) -> Option<Seq<char>> {
    match s {
        Some(text) => Some(text@),
        None => None,
    }
}

impl View for ProcessSample {
    type V = ProcessSampleView;

    open spec fn view(&self) -> ProcessSampleView {
        ProcessSampleView {
            pid: self.pid,
            name: self.name@,
            cpu_percent: self.cpu_percent,
            memory_bytes: self.memory_bytes,
            memory_percent: self.memory_percent,
            cmdline: opt_string_view(self.cmdline),
        }
    }
}

/// The views of a sequence of process samples, in the same order.
pub open spec fn process_views(processes: Seq<ProcessSample>) -> Seq<ProcessSampleView> {
    Seq::new(processes.len(), |i: int| processes[i]@)
}

/// One sampling window.
#[derive(Debug, Clone, PartialEq, Eq)]
pub struct SnapshotPayload {
    /// Start of the window, Unix seconds.
    pub window_start_secs: i64,
    /// End of the window, Unix seconds.
    pub window_end_secs: i64,
    /// CPU usage of the whole machine.
    pub total_cpu_percent: Percent,
    /// Memory in use, bytes.
    pub memory_used_bytes: u64,
    /// Memory installed, bytes.
    pub memory_total_bytes: u64,
    /// The sampled processes, in the caller's order.
    pub processes: Vec<ProcessSample>,
    /// Whether the caller cut the process list short.
    pub truncated: bool,
}

/// The mathematical value of a [`SnapshotPayload`].
pub ghost struct SnapshotPayloadView {
    pub window_start_secs: i64,
    pub window_end_secs: i64,
    pub total_cpu_percent: Percent,
    pub memory_used_bytes: u64,
    pub memory_total_bytes: u64,
    pub processes: Seq<ProcessSampleView>,
    pub truncated: bool,
}

impl View for SnapshotPayload {
    type V = SnapshotPayloadView;

    open spec fn view(&self) -> SnapshotPayloadView {
        SnapshotPayloadView {
            window_start_secs: self.window_start_secs,
            window_end_secs: self.window_end_secs,
            total_cpu_percent: self.total_cpu_percent,
            memory_used_bytes: self.memory_used_bytes,
            memory_total_bytes: self.memory_total_bytes,
            processes: process_views(self.processes@),
            truncated: self.truncated,
        }
    }
}

/// A throttle instruction from the collector.
#[derive(Debug, Clone, PartialEq, Eq)]
pub struct BackpressureSignal {
    /// How long to wait before the next send, in milliseconds; 0 lifts the throttle.
    pub throttle_delay_ms: u32,
    /// Why, for people to read.
    pub reason: Option<String>,
}

/// The mathematical value of a [`BackpressureSignal`].
pub ghost struct BackpressureSignalView {
    pub throttle_delay_ms: u32,
    pub reason: Option<Seq<char>>,
}

impl View for BackpressureSignal {
    type V = BackpressureSignalView;

    open spec fn view(&self) -> BackpressureSignalView {
        BackpressureSignalView {
            throttle_delay_ms: self.throttle_delay_ms,
            reason: opt_string_view(self.reason),
        }
    }
}

/// Acknowledgment of an earlier message.
#[derive(Debug, Clone, PartialEq, Eq)]
pub struct MessageAck {
    /// Identifier of the message that is acknowledged.
    pub message_id: [u8; 16],
    /// Whether it was accepted.
    pub success: bool,
    /// Error code, where it was not.
    pub error_code: Option<u32>,
}

/// The mathematical value of a [`MessageAck`].
pub ghost struct MessageAckView {
    pub message_id: Seq<u8>,
    pub success: bool,
    pub error_code: Option<u32>,
}

impl View for MessageAck {
    type V = MessageAckView;

    open spec fn view(&self) -> MessageAckView {
        MessageAckView {
            message_id: self.message_id@,
            success: self.success,
            error_code: self.error_code,
        }
    }
}

/// The metadata in front of every payload. It is never compressed.
#[derive(Debug, Clone, PartialEq, Eq)]
pub struct Envelope {
    /// Protocol version of the sender.
    pub version: ProtocolVersion,
    /// Kind of the message.
    pub message_type: MessageType,
    /// Correlation token of the message.
    pub message_id: [u8; 16],
    /// When the message was made, milliseconds since the Unix epoch.
    pub timestamp_utc_ms: i64,
    /// Identifier that the sending agent declares.
    pub agent_id: String,
    /// Platform of the sender.
    pub platform: OsType,
    /// Whether the payload is compressed.
    pub compressed: bool,
}

/// The mathematical value of an [`Envelope`].
pub ghost struct EnvelopeView {
    pub version: ProtocolVersion,
    pub message_type: MessageType,
    pub message_id: Seq<u8>,
    pub timestamp_utc_ms: i64,
    pub agent_id: Seq<char>,
    pub platform: OsType,
    pub compressed: bool,
}

impl View for Envelope {
    type V = EnvelopeView;

    open spec fn view(&self) -> EnvelopeView {
        EnvelopeView {
            version: self.version,
            message_type: self.message_type,
            message_id: self.message_id@,
            timestamp_utc_ms: self.timestamp_utc_ms,
            agent_id: self.agent_id@,
            platform: self.platform,
            compressed: self.compressed,
        }
    }
}

/// What a message carries, one variant for each message type.
#[derive(Debug, Clone, PartialEq, Eq)]
pub enum MessagePayload {
    Handshake(AgentIdentity),
    HandshakeAck,
    Heartbeat,
    Snapshot(SnapshotPayload),
    Ack(MessageAck),
    Backpressure(BackpressureSignal),
    Error { code: u32, message: String },
}

/// The mathematical value of a [`MessagePayload`].
pub ghost enum MessagePayloadView {
    Handshake(AgentIdentityView),
    HandshakeAck,
    Heartbeat,
    Snapshot(SnapshotPayloadView),
    Ack(MessageAckView),
    Backpressure(BackpressureSignalView),
    Error { code: u32, message: Seq<char> },
}

impl MessagePayloadView {
    /// The message type that goes with a payload.
    pub open spec fn message_type(self) -> MessageType {
        match self {
            MessagePayloadView::Handshake(_) => MessageType::Handshake,
            MessagePayloadView::HandshakeAck => MessageType::HandshakeAck,
            MessagePayloadView::Heartbeat => MessageType::Heartbeat,
            MessagePayloadView::Snapshot(_) => MessageType::Snapshot,
            MessagePayloadView::Ack(_) => MessageType::Ack,
            MessagePayloadView::Backpressure(_) => MessageType::Backpressure,
            MessagePayloadView::Error { .. } => MessageType::Error,
        }
    }
}

impl View for MessagePayload {
    type V = MessagePayloadView;

    open spec fn view(&self) -> MessagePayloadView {
        match *self {
            MessagePayload::Handshake(identity) => MessagePayloadView::Handshake(identity@),
            MessagePayload::HandshakeAck => MessagePayloadView::HandshakeAck,
            MessagePayload::Heartbeat => MessagePayloadView::Heartbeat,
            MessagePayload::Snapshot(snapshot) => MessagePayloadView::Snapshot(snapshot@),
            MessagePayload::Ack(ack) => MessagePayloadView::Ack(ack@),
            MessagePayload::Backpressure(signal) => MessagePayloadView::Backpressure(signal@),
            MessagePayload::Error { code, message } => MessagePayloadView::Error {
                code,
                message: message@,
            },
        }
    }
}

impl MessagePayload {
    /// The message type that goes with this payload.
    pub fn message_type(&self) -> (t: MessageType)
        ensures
            t == self@.message_type(),
    {
        match self {
            MessagePayload::Handshake(_) => MessageType::Handshake,
            MessagePayload::HandshakeAck => MessageType::HandshakeAck,
            MessagePayload::Heartbeat => MessageType::Heartbeat,
            MessagePayload::Snapshot(_) => MessageType::Snapshot,
            MessagePayload::Ack(_) => MessageType::Ack,
            MessagePayload::Backpressure(_) => MessageType::Backpressure,
            MessagePayload::Error { .. } => MessageType::Error,
        }
    }
}

/// An envelope with its payload.
#[derive(Debug, Clone, PartialEq, Eq)]
pub struct Message {
    pub envelope: Envelope,
    pub payload: MessagePayload,
}

/// The mathematical value of a [`Message`].
pub ghost struct MessageView {
    pub envelope: EnvelopeView,
    pub payload: MessagePayloadView,
}

impl MessageView {
    /// The pairing rule: the envelope names the type of the payload it precedes.
    pub open spec fn well_formed(self) -> bool {
        self.envelope.message_type == self.payload.message_type()
    }
}

impl View for Message {
    type V = MessageView;

    open spec fn view(&self) -> MessageView {
        MessageView { envelope: self.envelope@, payload: self.payload@ }
    }
}

impl Message {
    /// Whether the envelope names the type of the payload.
    pub fn is_well_formed(&self) -> (ok: bool)
        ensures
            ok == self@.well_formed(),
    {
        self.envelope.message_type.to_u8() == self.payload.message_type().to_u8()
    }
}

} // verus!
