//! The wire layout of the envelope and of each payload, as mathematics.
//!
//! A frame body is the envelope followed by the payload region. The envelope
//! is: version major, version minor, message type, the sixteen bytes of the
//! message identifier, the timestamp, the agent identifier, the platform and
//! the compression flag. Each payload writes its fields in the order in
//! which its type declares them.

use vstd::prelude::*;
use crate::protocol::error::ProtocolErrorView;
use crate::protocol::kinds::{MessageType, OsType};
use crate::protocol::message::{
    AgentIdentityView, BackpressureSignalView, EnvelopeView, MessageAckView, MessagePayloadView,
    Percent, ProcessSampleView, SnapshotPayloadView,
};
use crate::protocol::version::ProtocolVersion;
use crate::protocol::wire::{
    bool_bytes, i64_bytes, opt_string_bytes, opt_u32_bytes, parse_bool, parse_bytes, parse_i64,
    parse_opt_string, parse_opt_u32, parse_string, parse_u32, parse_u64, parse_u8, string_bytes,
    string_fits, opt_string_fits, u32_bytes, u64_bytes, Parsed,
};

verus! {

// ---------------------------------------------------------------------------
// What can be written at all
// ---------------------------------------------------------------------------

/// A process sample can be written when its strings can.
pub open spec fn process_fits(p: ProcessSampleView) -> bool {
    string_fits(p.name) && opt_string_fits(p.cmdline)
}

/// A payload can be written when its strings can, its processes can be
/// counted in eight bytes, and its identifier has sixteen bytes. Every
/// payload held in memory can.
pub open spec fn payload_fits(p: MessagePayloadView) -> bool {
    match p {
        MessagePayloadView::Handshake(identity) => string_fits(identity.instance_id)
            && string_fits(identity.agent_version),
        MessagePayloadView::HandshakeAck => true,
        MessagePayloadView::Heartbeat => true,
        MessagePayloadView::Snapshot(snapshot) => {
            &&& snapshot.processes.len() <= u64::MAX
            &&& forall|i: int|
                0 <= i < snapshot.processes.len() ==> process_fits(#[trigger] snapshot.processes[i])
        },
        MessagePayloadView::Ack(ack) => ack.message_id.len() == 16,
        MessagePayloadView::Backpressure(signal) => opt_string_fits(signal.reason),
        MessagePayloadView::Error { code, message } => string_fits(message),
    }
}

/// An envelope can be written when its identifier has sixteen bytes and its
/// agent identifier can be written. Every envelope held in memory can.
pub open spec fn envelope_fits(e: EnvelopeView) -> bool {
    e.message_id.len() == 16 && string_fits(e.agent_id)
}

// ---------------------------------------------------------------------------
// Small fields
// ---------------------------------------------------------------------------

/// A version is its major byte, then its minor byte.
pub open spec fn version_bytes(v: ProtocolVersion) -> Seq<u8> {
    seq![v.major, v.minor]
}

/// A percentage is the four little-endian bytes of its bit pattern.
pub open spec fn percent_bytes(p: Percent) -> Seq<u8> {
    u32_bytes(p.bits)
}

/// Takes two bytes as a version, major first.
pub open spec fn parse_version(input: Seq<u8>) -> Parsed<ProtocolVersion> {
    match parse_u8(input) {
        Err(e) => Err(e),
        Ok((major, rest)) => match parse_u8(rest) {
            Err(e) => Err(e),
            Ok((minor, after)) => Ok((ProtocolVersion { major, minor }, after)),
        },
    }
}

/// Takes one byte as a message type. A byte that names none is reported with the byte.
pub open spec fn parse_message_type(input: Seq<u8>) -> Parsed<MessageType> {
    match parse_u8(input) {
        Err(e) => Err(e),
        Ok((b, rest)) => match MessageType::of_wire_byte(b) {
            Some(t) => Ok((t, rest)),
            None => Err(ProtocolErrorView::InvalidMessageType(b)),
        },
    }
}

/// Takes one byte as a platform. A byte that names none is reported with the byte.
pub open spec fn parse_platform(input: Seq<u8>) -> Parsed<OsType> {
    match parse_u8(input) {
        Err(e) => Err(e),
        Ok((b, rest)) => match OsType::of_wire_byte(b) {
            Some(p) => Ok((p, rest)),
            None => Err(ProtocolErrorView::InvalidMessageType(b)),
        },
    }
}

/// Takes the sixteen bytes of a message identifier.
pub open spec fn parse_message_id(input: Seq<u8>) -> Parsed<Seq<u8>> {
    parse_bytes(input, 16)
}

/// Takes four bytes as the bit pattern of a percentage.
pub open spec fn parse_percent(input: Seq<u8>) -> Parsed<Percent> {
    match parse_u32(input) {
        Err(e) => Err(e),
        Ok((bits, rest)) => Ok((Percent { bits }, rest)),
    }
}

// ---------------------------------------------------------------------------
// Envelope
// ---------------------------------------------------------------------------

/// The bytes of an envelope. The type byte is given apart: the codec writes
/// the type of the payload that follows.
pub open spec fn envelope_bytes(e: EnvelopeView, t: MessageType) -> Seq<u8> {
    version_bytes(e.version) + seq![t.wire_byte()] + e.message_id + i64_bytes(e.timestamp_utc_ms)
        + string_bytes(e.agent_id) + seq![e.platform.wire_byte()] + bool_bytes(e.compressed)
}

/// Takes an envelope, field by field. The first field that fails decides
/// the failure.
pub open spec fn parse_envelope(input: Seq<u8>) -> Parsed<EnvelopeView> {
    match parse_version(input) {
        Err(e) => Err(e),
        Ok((version, r1)) => match parse_message_type(r1) {
            Err(e) => Err(e),
            Ok((message_type, r2)) => match parse_message_id(r2) {
                Err(e) => Err(e),
                Ok((message_id, r3)) => match parse_i64(r3) {
                    Err(e) => Err(e),
                    Ok((timestamp_utc_ms, r4)) => match parse_string(r4) {
                        Err(e) => Err(e),
                        Ok((agent_id, r5)) => match parse_platform(r5) {
                            Err(e) => Err(e),
                            Ok((platform, r6)) => match parse_bool(r6) {
                                Err(e) => Err(e),
                                Ok((compressed, r7)) => Ok(
                                    (
                                        EnvelopeView {
                                            version,
                                            message_type,
                                            message_id,
                                            timestamp_utc_ms,
                                            agent_id,
                                            platform,
                                            compressed,
                                        },
                                        r7,
                                    ),
                                ),
                            },
                        },
                    },
                },
            },
        },
    }
}

// ---------------------------------------------------------------------------
// Payloads
// ---------------------------------------------------------------------------

/// The bytes of an agent identity: instance identifier, platform byte,
/// agent version, protocol version, capability mask.
pub open spec fn identity_bytes(a: AgentIdentityView) -> Seq<u8> {
    string_bytes(a.instance_id) + seq![a.os_type.wire_byte()] + string_bytes(a.agent_version)
        + version_bytes(a.protocol_version) + u32_bytes(a.capabilities)
}

/// Takes an agent identity. The platform byte is judged after the other
/// fields have been read.
pub open spec fn parse_identity(input: Seq<u8>) -> Parsed<AgentIdentityView> {
    match parse_string(input) {
        Err(e) => Err(e),
        Ok((instance_id, r1)) => match parse_u8(r1) {
            Err(e) => Err(e),
            Ok((os_byte, r2)) => match parse_string(r2) {
                Err(e) => Err(e),
                Ok((agent_version, r3)) => match parse_version(r3) {
                    Err(e) => Err(e),
                    Ok((protocol_version, r4)) => match parse_u32(r4) {
                        Err(e) => Err(e),
                        Ok((capabilities, r5)) => match OsType::of_wire_byte(os_byte) {
                            None => Err(ProtocolErrorView::InvalidMessageType(os_byte)),
                            Some(os_type) => Ok(
                                (
                                    AgentIdentityView {
                                        instance_id,
                                        os_type,
                                        agent_version,
                                        protocol_version,
                                        capabilities,
                                    },
                                    r5,
                                ),
                            ),
                        },
                    },
                },
            },
        },
    }
}

/// The bytes of a process sample: identifier, name, CPU share, memory in
/// bytes, memory share, optional command line.
pub open spec fn process_bytes(p: ProcessSampleView) -> Seq<u8> {
    u32_bytes(p.pid) + string_bytes(p.name) + percent_bytes(p.cpu_percent) + u64_bytes(
        p.memory_bytes,
    ) + percent_bytes(p.memory_percent) + opt_string_bytes(p.cmdline)
}

/// Takes one process sample.
pub open spec fn parse_process(input: Seq<u8>) -> Parsed<ProcessSampleView> {
    match parse_u32(input) {
        Err(e) => Err(e),
        Ok((pid, r1)) => match parse_string(r1) {
            Err(e) => Err(e),
            Ok((name, r2)) => match parse_percent(r2) {
                Err(e) => Err(e),
                Ok((cpu_percent, r3)) => match parse_u64(r3) {
                    Err(e) => Err(e),
                    Ok((memory_bytes, r4)) => match parse_percent(r4) {
                        Err(e) => Err(e),
                        Ok((memory_percent, r5)) => match parse_opt_string(r5) {
                            Err(e) => Err(e),
                            Ok((cmdline, r6)) => Ok(
                                (
                                    ProcessSampleView {
                                        pid,
                                        name,
                                        cpu_percent,
                                        memory_bytes,
                                        memory_percent,
                                        cmdline,
                                    },
                                    r6,
                                ),
                            ),
                        },
                    },
                },
            },
        },
    }
}

/// The processes one after another, in their order.
pub open spec fn processes_bytes(ps: Seq<ProcessSampleView>) -> Seq<u8>
    decreases ps.len(),
{
    if ps.len() == 0 {
        Seq::empty()
    } else {
        process_bytes(ps[0]) + processes_bytes(ps.drop_first())
    }
}

/// Takes `count` processes, one after another.
pub open spec fn parse_processes(input: Seq<u8>, count: nat) -> Parsed<Seq<ProcessSampleView>>
    decreases count,
{
    if count == 0 {
        Ok((Seq::empty(), input))
    } else {
        match parse_process(input) {
            Err(e) => Err(e),
            Ok((first, rest)) => match parse_processes(rest, (count - 1) as nat) {
                Err(e) => Err(e),
                Ok((others, after)) => Ok((seq![first] + others, after)),
            },
        }
    }
}

/// Puts the processes already read in front of what reading the others gives.
pub open spec fn after_processes(
    done: Seq<ProcessSampleView>,
    others: Parsed<Seq<ProcessSampleView>>,
) -> Parsed<Seq<ProcessSampleView>> {
    match others {
        Ok((ps, rest)) => Ok((done + ps, rest)),
        Err(e) => Err(e),
    }
}

/// The bytes of a snapshot: the window, the CPU share, memory used and
/// installed, the count of processes in eight bytes, the processes, and the
/// truncation flag.
pub open spec fn snapshot_bytes(s: SnapshotPayloadView) -> Seq<u8> {
    i64_bytes(s.window_start_secs) + i64_bytes(s.window_end_secs) + percent_bytes(
        s.total_cpu_percent,
    ) + u64_bytes(s.memory_used_bytes) + u64_bytes(s.memory_total_bytes) + u64_bytes(
        s.processes.len() as u64,
    ) + processes_bytes(s.processes) + bool_bytes(s.truncated)
}

/// Takes a snapshot. The count that was read says how many processes follow.
pub open spec fn parse_snapshot(input: Seq<u8>) -> Parsed<SnapshotPayloadView> {
    match parse_i64(input) {
        Err(e) => Err(e),
        Ok((window_start_secs, r1)) => match parse_i64(r1) {
            Err(e) => Err(e),
            Ok((window_end_secs, r2)) => match parse_percent(r2) {
                Err(e) => Err(e),
                Ok((total_cpu_percent, r3)) => match parse_u64(r3) {
                    Err(e) => Err(e),
                    Ok((memory_used_bytes, r4)) => match parse_u64(r4) {
                        Err(e) => Err(e),
                        Ok((memory_total_bytes, r5)) => match parse_u64(r5) {
                            Err(e) => Err(e),
                            Ok((count, r6)) => match parse_processes(r6, count as nat) {
                                Err(e) => Err(e),
                                Ok((processes, r7)) => match parse_bool(r7) {
                                    Err(e) => Err(e),
                                    Ok((truncated, r8)) => Ok(
                                        (
                                            SnapshotPayloadView {
                                                window_start_secs,
                                                window_end_secs,
                                                total_cpu_percent,
                                                memory_used_bytes,
                                                memory_total_bytes,
                                                processes,
                                                truncated,
                                            },
                                            r8,
                                        ),
                                    ),
                                },
                            },
                        },
                    },
                },
            },
        },
    }
}

/// The bytes of an acknowledgment: the identifier, the success flag, the
/// optional error code.
pub open spec fn ack_bytes(a: MessageAckView) -> Seq<u8> {
    a.message_id + bool_bytes(a.success) + opt_u32_bytes(a.error_code)
}

/// Takes an acknowledgment.
pub open spec fn parse_ack(input: Seq<u8>) -> Parsed<MessageAckView> {
    match parse_message_id(input) {
        Err(e) => Err(e),
        Ok((message_id, r1)) => match parse_bool(r1) {
            Err(e) => Err(e),
            Ok((success, r2)) => match parse_opt_u32(r2) {
                Err(e) => Err(e),
                Ok((error_code, r3)) => Ok((MessageAckView { message_id, success, error_code }, r3)),
            },
        },
    }
}

/// The bytes of a throttle instruction: the delay, the optional reason.
pub open spec fn backpressure_bytes(b: BackpressureSignalView) -> Seq<u8> {
    u32_bytes(b.throttle_delay_ms) + opt_string_bytes(b.reason)
}

/// Takes a throttle instruction.
pub open spec fn parse_backpressure(input: Seq<u8>) -> Parsed<BackpressureSignalView> {
    match parse_u32(input) {
        Err(e) => Err(e),
        Ok((throttle_delay_ms, r1)) => match parse_opt_string(r1) {
            Err(e) => Err(e),
            Ok((reason, r2)) => Ok((BackpressureSignalView { throttle_delay_ms, reason }, r2)),
        },
    }
}

/// The bytes of an error notification: the code, the message.
pub open spec fn error_bytes(code: u32, message: Seq<char>) -> Seq<u8> {
    u32_bytes(code) + string_bytes(message)
}

/// Takes an error notification.
pub open spec fn parse_error(input: Seq<u8>) -> Parsed<MessagePayloadView> {
    match parse_u32(input) {
        Err(e) => Err(e),
        Ok((code, r1)) => match parse_string(r1) {
            Err(e) => Err(e),
            Ok((message, r2)) => Ok((MessagePayloadView::Error { code, message }, r2)),
        },
    }
}

/// The bytes of a payload, before any compression. The two payloads without
/// fields are empty.
pub open spec fn payload_bytes(p: MessagePayloadView) -> Seq<u8> {
    match p {
        MessagePayloadView::Handshake(identity) => identity_bytes(identity),
        MessagePayloadView::HandshakeAck => Seq::empty(),
        MessagePayloadView::Heartbeat => Seq::empty(),
        MessagePayloadView::Snapshot(snapshot) => snapshot_bytes(snapshot),
        MessagePayloadView::Ack(ack) => ack_bytes(ack),
        MessagePayloadView::Backpressure(signal) => backpressure_bytes(signal),
        MessagePayloadView::Error { code, message } => error_bytes(code, message),
    }
}

/// Reads the payload that goes with a message type. Bytes after the payload
/// are left alone.
pub open spec fn parse_payload(t: MessageType, input: Seq<u8>) -> Parsed<MessagePayloadView> {
    match t {
        MessageType::Handshake => match parse_identity(input) {
            Err(e) => Err(e),
            Ok((identity, rest)) => Ok((MessagePayloadView::Handshake(identity), rest)),
        },
        MessageType::HandshakeAck => Ok((MessagePayloadView::HandshakeAck, input)),
        MessageType::Heartbeat => Ok((MessagePayloadView::Heartbeat, input)),
        MessageType::Snapshot => match parse_snapshot(input) {
            Err(e) => Err(e),
            Ok((snapshot, rest)) => Ok((MessagePayloadView::Snapshot(snapshot), rest)),
        },
        MessageType::Ack => match parse_ack(input) {
            Err(e) => Err(e),
            Ok((ack, rest)) => Ok((MessagePayloadView::Ack(ack), rest)),
        },
        MessageType::Backpressure => match parse_backpressure(input) {
            Err(e) => Err(e),
            Ok((signal, rest)) => Ok((MessagePayloadView::Backpressure(signal), rest)),
        },
        MessageType::Error => parse_error(input),
    }
}

// ---------------------------------------------------------------------------
// Facts about the process list
// ---------------------------------------------------------------------------

/// Writing one more process appends its bytes.
pub proof fn lemma_processes_bytes_push(ps: Seq<ProcessSampleView>, p: ProcessSampleView)
    ensures
        processes_bytes(ps.push(p)) == processes_bytes(ps) + process_bytes(p),
    decreases ps.len(),
{
    if ps.len() == 0 {
        reveal_with_fuel(processes_bytes, 2);
        assert(ps.push(p).drop_first() =~= Seq::<ProcessSampleView>::empty());
        assert(processes_bytes(ps.push(p)) =~= process_bytes(p));
        assert(processes_bytes(ps) + process_bytes(p) =~= process_bytes(p));
    } else {
        assert(ps.push(p).drop_first() =~= ps.drop_first().push(p));
        lemma_processes_bytes_push(ps.drop_first(), p);
        assert(processes_bytes(ps.push(p)) =~= processes_bytes(ps) + process_bytes(p));
    }
}

} // verus!
