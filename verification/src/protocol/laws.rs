//! What holds of the codec as a whole.
//!
//! The main law is the round trip: decoding the frame of a message gives the
//! message back, and leaves whatever followed the frame. It is proved field
//! by field, from the lemmas of [`crate::protocol::wire`].

use vstd::prelude::*;
use vstd::utf8::encode_utf8;
use crate::protocol::codec::{
    assembled, compressor_is_undone, decoded, decoded_body, encoded, payload_of_region,
    region_of_payload, sealed, split_frame, MAX_FRAME_SIZE,
};
use crate::protocol::error::ProtocolErrorView;
use crate::protocol::kinds::{MessageType, OsType};
use crate::protocol::layout::{
    ack_bytes, backpressure_bytes, envelope_bytes, envelope_fits, identity_bytes, parse_ack,
    parse_backpressure, parse_envelope, parse_identity, parse_message_type, parse_payload,
    parse_percent, parse_platform, parse_process, parse_processes, parse_snapshot, parse_version,
    payload_bytes, payload_fits, percent_bytes, process_bytes, process_fits, processes_bytes,
    snapshot_bytes, version_bytes,
};
use crate::protocol::message::{
    AgentIdentityView, BackpressureSignalView, EnvelopeView, MessageAckView, MessagePayloadView,
    MessageView, Percent, ProcessSampleView, SnapshotPayloadView,
};
use crate::protocol::version::ProtocolVersion;
use crate::protocol::wire::{
    be_bytes, bool_bytes, i64_bytes, i64_pattern, lemma_be_bytes_len, lemma_be_round_trip,
    lemma_concat_assoc, lemma_le_bytes_len, lemma_parse_bool, lemma_parse_bytes, lemma_parse_i64,
    lemma_parse_opt_string, lemma_parse_opt_u32, lemma_parse_string, lemma_parse_u32,
    lemma_parse_u64, lemma_parse_u8, lemma_radix_values, opt_string_bytes, opt_u32_bytes,
    parse_opt_string, string_bytes, u32_bytes, u64_bytes,
};

verus! {

// ---------------------------------------------------------------------------
// Small fields
// ---------------------------------------------------------------------------

/// A version comes back as it was written.
pub proof fn lemma_parse_version(v: ProtocolVersion, rest: Seq<u8>)
    ensures
        parse_version(version_bytes(v) + rest) == Ok::<
            (ProtocolVersion, Seq<u8>),
            ProtocolErrorView,
        >((v, rest)),
{
    let after_major = seq![v.minor] + rest;
    assert(version_bytes(v) + rest =~= seq![v.major] + after_major);
    lemma_parse_u8(v.major, after_major);
    lemma_parse_u8(v.minor, rest);
}

/// A message type comes back from its byte.
pub proof fn lemma_parse_message_type(t: MessageType, rest: Seq<u8>)
    ensures
        parse_message_type(seq![t.wire_byte()] + rest) == Ok::<
            (MessageType, Seq<u8>),
            ProtocolErrorView,
        >((t, rest)),
{
    lemma_parse_u8(t.wire_byte(), rest);
    MessageType::lemma_wire_byte_round_trip(t);
}

/// A platform comes back from its byte.
pub proof fn lemma_parse_platform(p: OsType, rest: Seq<u8>)
    ensures
        parse_platform(seq![p.wire_byte()] + rest) == Ok::<(OsType, Seq<u8>), ProtocolErrorView>(
            (p, rest),
        ),
{
    lemma_parse_u8(p.wire_byte(), rest);
    OsType::lemma_wire_byte_round_trip(p);
}

/// A percentage comes back with the same bit pattern.
pub proof fn lemma_parse_percent(p: Percent, rest: Seq<u8>)
    ensures
        parse_percent(percent_bytes(p) + rest) == Ok::<(Percent, Seq<u8>), ProtocolErrorView>(
            (p, rest),
        ),
{
    lemma_parse_u32(p.bits, rest);
}

// ---------------------------------------------------------------------------
// Envelope and payloads
// ---------------------------------------------------------------------------

/// The bytes of an envelope and what follows them, grouped field by field.
proof fn lemma_envelope_grouping(e: EnvelopeView, t: MessageType, rest: Seq<u8>)
    ensures
        envelope_bytes(e, t) + rest == version_bytes(e.version) + (seq![t.wire_byte()] + (
        e.message_id + (i64_bytes(e.timestamp_utc_ms) + (string_bytes(e.agent_id) + (seq![
            e.platform.wire_byte(),
        ] + (bool_bytes(e.compressed) + rest)))))),
{
    let r6 = bool_bytes(e.compressed) + rest;
    let r5 = seq![e.platform.wire_byte()] + r6;
    let r4 = string_bytes(e.agent_id) + r5;
    let r3 = i64_bytes(e.timestamp_utc_ms) + r4;
    let r2 = e.message_id + r3;
    let x1 = version_bytes(e.version);
    let x2 = x1 + seq![t.wire_byte()];
    let x3 = x2 + e.message_id;
    let x4 = x3 + i64_bytes(e.timestamp_utc_ms);
    let x5 = x4 + string_bytes(e.agent_id);
    let x6 = x5 + seq![e.platform.wire_byte()];
    lemma_concat_assoc(x6, bool_bytes(e.compressed), rest);
    lemma_concat_assoc(x5, seq![e.platform.wire_byte()], r6);
    lemma_concat_assoc(x4, string_bytes(e.agent_id), r5);
    lemma_concat_assoc(x3, i64_bytes(e.timestamp_utc_ms), r4);
    lemma_concat_assoc(x2, e.message_id, r3);
    lemma_concat_assoc(x1, seq![t.wire_byte()], r2);
}

/// An envelope comes back as it was written, with the type byte that was written.
pub proof fn lemma_parse_envelope(e: EnvelopeView, t: MessageType, rest: Seq<u8>)
    requires
        envelope_fits(e),
    ensures
        parse_envelope(envelope_bytes(e, t) + rest) == Ok::<
            (EnvelopeView, Seq<u8>),
            ProtocolErrorView,
        >(
            (
                EnvelopeView {
                    version: e.version,
                    message_type: t,
                    message_id: e.message_id,
                    timestamp_utc_ms: e.timestamp_utc_ms,
                    agent_id: e.agent_id,
                    platform: e.platform,
                    compressed: e.compressed,
                },
                rest,
            ),
        ),
{
    let r6 = bool_bytes(e.compressed) + rest;
    let r5 = seq![e.platform.wire_byte()] + r6;
    let r4 = string_bytes(e.agent_id) + r5;
    let r3 = i64_bytes(e.timestamp_utc_ms) + r4;
    let r2 = e.message_id + r3;
    let r1 = seq![t.wire_byte()] + r2;
    lemma_envelope_grouping(e, t, rest);
    lemma_parse_version(e.version, r1);
    lemma_parse_message_type(t, r2);
    lemma_parse_bytes(e.message_id, r3);
    lemma_parse_i64(e.timestamp_utc_ms, r4);
    lemma_parse_string(e.agent_id, r5);
    lemma_parse_platform(e.platform, r6);
    lemma_parse_bool(e.compressed, rest);
}

/// An agent identity comes back as it was written.
pub proof fn lemma_parse_identity(a: AgentIdentityView, rest: Seq<u8>)
    requires
        payload_fits(MessagePayloadView::Handshake(a)),
    ensures
        parse_identity(identity_bytes(a) + rest) == Ok::<
            (AgentIdentityView, Seq<u8>),
            ProtocolErrorView,
        >((a, rest)),
{
    let r4 = u32_bytes(a.capabilities) + rest;
    let r3 = version_bytes(a.protocol_version) + r4;
    let r2 = string_bytes(a.agent_version) + r3;
    let r1 = seq![a.os_type.wire_byte()] + r2;
    let x1 = string_bytes(a.instance_id);
    let x2 = x1 + seq![a.os_type.wire_byte()];
    let x3 = x2 + string_bytes(a.agent_version);
    let x4 = x3 + version_bytes(a.protocol_version);
    lemma_concat_assoc(x4, u32_bytes(a.capabilities), rest);
    lemma_concat_assoc(x3, version_bytes(a.protocol_version), r4);
    lemma_concat_assoc(x2, string_bytes(a.agent_version), r3);
    lemma_concat_assoc(x1, seq![a.os_type.wire_byte()], r2);
    assert(identity_bytes(a) + rest == string_bytes(a.instance_id) + r1);
    lemma_parse_string(a.instance_id, r1);
    lemma_parse_u8(a.os_type.wire_byte(), r2);
    lemma_parse_string(a.agent_version, r3);
    lemma_parse_version(a.protocol_version, r4);
    lemma_parse_u32(a.capabilities, rest);
    OsType::lemma_wire_byte_round_trip(a.os_type);
}

/// A process sample comes back as it was written.
pub proof fn lemma_parse_process(p: ProcessSampleView, rest: Seq<u8>)
    requires
        process_fits(p),
    ensures
        parse_process(process_bytes(p) + rest) == Ok::<
            (ProcessSampleView, Seq<u8>),
            ProtocolErrorView,
        >((p, rest)),
{
    let r5 = opt_string_bytes(p.cmdline) + rest;
    let r4 = percent_bytes(p.memory_percent) + r5;
    let r3 = u64_bytes(p.memory_bytes) + r4;
    let r2 = percent_bytes(p.cpu_percent) + r3;
    let r1 = string_bytes(p.name) + r2;
    let x1 = u32_bytes(p.pid);
    let x2 = x1 + string_bytes(p.name);
    let x3 = x2 + percent_bytes(p.cpu_percent);
    let x4 = x3 + u64_bytes(p.memory_bytes);
    let x5 = x4 + percent_bytes(p.memory_percent);
    lemma_concat_assoc(x5, opt_string_bytes(p.cmdline), rest);
    lemma_concat_assoc(x4, percent_bytes(p.memory_percent), r5);
    lemma_concat_assoc(x3, u64_bytes(p.memory_bytes), r4);
    lemma_concat_assoc(x2, percent_bytes(p.cpu_percent), r3);
    lemma_concat_assoc(x1, string_bytes(p.name), r2);
    assert(process_bytes(p) + rest == u32_bytes(p.pid) + r1);
    lemma_parse_u32(p.pid, r1);
    lemma_parse_string(p.name, r2);
    lemma_parse_percent(p.cpu_percent, r3);
    lemma_parse_u64(p.memory_bytes, r4);
    lemma_parse_percent(p.memory_percent, r5);
    lemma_parse_opt_string(p.cmdline, rest);
}

/// A list of processes comes back whole and in its order.
pub proof fn lemma_parse_processes(ps: Seq<ProcessSampleView>, rest: Seq<u8>)
    requires
        forall|i: int| 0 <= i < ps.len() ==> process_fits(#[trigger] ps[i]),
    ensures
        parse_processes(processes_bytes(ps) + rest, ps.len()) == Ok::<
            (Seq<ProcessSampleView>, Seq<u8>),
            ProtocolErrorView,
        >((ps, rest)),
    decreases ps.len(),
{
    if ps.len() == 0 {
        assert(processes_bytes(ps) + rest =~= rest);
        assert(ps =~= Seq::<ProcessSampleView>::empty());
    } else {
        let others = ps.drop_first();
        let after_first = processes_bytes(others) + rest;
        lemma_concat_assoc(process_bytes(ps[0]), processes_bytes(others), rest);
        assert(processes_bytes(ps) + rest == process_bytes(ps[0]) + after_first);
        lemma_parse_process(ps[0], after_first);
        assert forall|i: int| 0 <= i < others.len() implies process_fits(#[trigger] others[i]) by {
            assert(others[i] == ps[i + 1]);
        }
        lemma_parse_processes(others, rest);
        assert(seq![ps[0]] + others =~= ps);
    }
}

/// The bytes of a snapshot and what follows them, grouped field by field.
proof fn lemma_snapshot_grouping(s: SnapshotPayloadView, rest: Seq<u8>)
    ensures
        snapshot_bytes(s) + rest == i64_bytes(s.window_start_secs) + (i64_bytes(s.window_end_secs)
            + (percent_bytes(s.total_cpu_percent) + (u64_bytes(s.memory_used_bytes) + (u64_bytes(
            s.memory_total_bytes,
        ) + (u64_bytes(s.processes.len() as u64) + (processes_bytes(s.processes) + (bool_bytes(
            s.truncated,
        ) + rest))))))),
{
    let count = s.processes.len() as u64;
    let r7 = bool_bytes(s.truncated) + rest;
    let r6 = processes_bytes(s.processes) + r7;
    let r5 = u64_bytes(count) + r6;
    let r4 = u64_bytes(s.memory_total_bytes) + r5;
    let r3 = u64_bytes(s.memory_used_bytes) + r4;
    let r2 = percent_bytes(s.total_cpu_percent) + r3;
    let x1 = i64_bytes(s.window_start_secs);
    let x2 = x1 + i64_bytes(s.window_end_secs);
    let x3 = x2 + percent_bytes(s.total_cpu_percent);
    let x4 = x3 + u64_bytes(s.memory_used_bytes);
    let x5 = x4 + u64_bytes(s.memory_total_bytes);
    let x6 = x5 + u64_bytes(count);
    let x7 = x6 + processes_bytes(s.processes);
    lemma_concat_assoc(x7, bool_bytes(s.truncated), rest);
    lemma_concat_assoc(x6, processes_bytes(s.processes), r7);
    lemma_concat_assoc(x5, u64_bytes(count), r6);
    lemma_concat_assoc(x4, u64_bytes(s.memory_total_bytes), r5);
    lemma_concat_assoc(x3, u64_bytes(s.memory_used_bytes), r4);
    lemma_concat_assoc(x2, percent_bytes(s.total_cpu_percent), r3);
    lemma_concat_assoc(x1, i64_bytes(s.window_end_secs), r2);
}

/// A snapshot comes back as it was written, its processes in their order.
pub proof fn lemma_parse_snapshot(s: SnapshotPayloadView, rest: Seq<u8>)
    requires
        payload_fits(MessagePayloadView::Snapshot(s)),
    ensures
        parse_snapshot(snapshot_bytes(s) + rest) == Ok::<
            (SnapshotPayloadView, Seq<u8>),
            ProtocolErrorView,
        >((s, rest)),
{
    let count = s.processes.len() as u64;
    let r7 = bool_bytes(s.truncated) + rest;
    let r6 = processes_bytes(s.processes) + r7;
    let r5 = u64_bytes(count) + r6;
    let r4 = u64_bytes(s.memory_total_bytes) + r5;
    let r3 = u64_bytes(s.memory_used_bytes) + r4;
    let r2 = percent_bytes(s.total_cpu_percent) + r3;
    let r1 = i64_bytes(s.window_end_secs) + r2;
    lemma_snapshot_grouping(s, rest);
    lemma_parse_i64(s.window_start_secs, r1);
    lemma_parse_i64(s.window_end_secs, r2);
    lemma_parse_percent(s.total_cpu_percent, r3);
    lemma_parse_u64(s.memory_used_bytes, r4);
    lemma_parse_u64(s.memory_total_bytes, r5);
    lemma_parse_u64(count, r6);
    lemma_parse_processes(s.processes, r7);
    lemma_parse_bool(s.truncated, rest);
}

/// An acknowledgment comes back as it was written.
pub proof fn lemma_parse_ack(a: MessageAckView, rest: Seq<u8>)
    requires
        payload_fits(MessagePayloadView::Ack(a)),
    ensures
        parse_ack(ack_bytes(a) + rest) == Ok::<(MessageAckView, Seq<u8>), ProtocolErrorView>(
            (a, rest),
        ),
{
    let r2 = opt_u32_bytes(a.error_code) + rest;
    let r1 = bool_bytes(a.success) + r2;
    lemma_concat_assoc(a.message_id + bool_bytes(a.success), opt_u32_bytes(a.error_code), rest);
    lemma_concat_assoc(a.message_id, bool_bytes(a.success), r2);
    assert(ack_bytes(a) + rest == a.message_id + r1);
    lemma_parse_bytes(a.message_id, r1);
    lemma_parse_bool(a.success, r2);
    lemma_parse_opt_u32(a.error_code, rest);
}

/// A throttle instruction comes back as it was written.
pub proof fn lemma_parse_backpressure(b: BackpressureSignalView, rest: Seq<u8>)
    requires
        payload_fits(MessagePayloadView::Backpressure(b)),
    ensures
        parse_backpressure(backpressure_bytes(b) + rest) == Ok::<
            (BackpressureSignalView, Seq<u8>),
            ProtocolErrorView,
        >((b, rest)),
{
    let r1 = opt_string_bytes(b.reason) + rest;
    lemma_concat_assoc(u32_bytes(b.throttle_delay_ms), opt_string_bytes(b.reason), rest);
    lemma_parse_u32(b.throttle_delay_ms, r1);
    lemma_parse_opt_string(b.reason, rest);
}

/// Every payload comes back as it was written, by the parser of its own type.
pub proof fn lemma_parse_payload(p: MessagePayloadView, rest: Seq<u8>)
    requires
        payload_fits(p),
    ensures
        parse_payload(p.message_type(), payload_bytes(p) + rest) == Ok::<
            (MessagePayloadView, Seq<u8>),
            ProtocolErrorView,
        >((p, rest)),
{
    match p {
        MessagePayloadView::Handshake(identity) => {
            lemma_parse_identity(identity, rest);
        },
        MessagePayloadView::HandshakeAck => {
            assert(payload_bytes(p) + rest =~= rest);
        },
        MessagePayloadView::Heartbeat => {
            assert(payload_bytes(p) + rest =~= rest);
        },
        MessagePayloadView::Snapshot(snapshot) => {
            lemma_parse_snapshot(snapshot, rest);
        },
        MessagePayloadView::Ack(ack) => {
            lemma_parse_ack(ack, rest);
        },
        MessagePayloadView::Backpressure(signal) => {
            lemma_parse_backpressure(signal, rest);
        },
        MessagePayloadView::Error { code, message } => {
            let r1 = string_bytes(message) + rest;
            lemma_concat_assoc(u32_bytes(code), string_bytes(message), rest);
            lemma_parse_u32(code, r1);
            lemma_parse_string(message, rest);
        },
    }
}

// ---------------------------------------------------------------------------
// Frames
// ---------------------------------------------------------------------------

/// A sealed body is cut off a stream again, whatever follows it.
pub proof fn lemma_split_sealed(body: Seq<u8>, tail: Seq<u8>)
    requires
        body.len() <= MAX_FRAME_SIZE,
    ensures
        sealed(body) matches Ok(frame) && split_frame(frame + tail) == Ok::<
            (Seq<u8>, Seq<u8>),
            ProtocolErrorView,
        >((body, tail)),
{
    let prefix = be_bytes(body.len(), 4);
    let stream = prefix + body + tail;
    lemma_radix_values();
    lemma_be_bytes_len(body.len(), 4);
    lemma_be_round_trip(body.len(), 4);
    assert(stream.take(4) =~= prefix);
    assert(stream.subrange(4, 4 + body.len() as int) =~= body);
    assert(stream.skip(4 + body.len() as int) =~= tail);
}

/// The round trip, given the payload region: a message whose region
/// decompresses to its payload bytes is decoded from its frame as it was,
/// and what followed the frame is left.
pub proof fn lemma_round_trip_with_region(m: MessageView, region: Seq<u8>, tail: Seq<u8>)
    requires
        m.well_formed(),
        envelope_fits(m.envelope),
        payload_fits(m.payload),
        payload_of_region(m.envelope.compressed, region) == Ok::<Seq<u8>, ProtocolErrorView>(
            payload_bytes(m.payload),
        ),
        assembled(m, region) is Ok,
    ensures
        decoded(assembled(m, region)->Ok_0 + tail) == Ok::<
            (MessageView, Seq<u8>),
            ProtocolErrorView,
        >((m, tail)),
{
    let header = envelope_bytes(m.envelope, m.payload.message_type());
    let body = header + region;
    let payload = payload_bytes(m.payload);
    lemma_split_sealed(body, tail);
    lemma_parse_envelope(m.envelope, m.payload.message_type(), region);
    assert(payload + Seq::<u8>::empty() =~= payload);
    lemma_parse_payload(m.payload, Seq::<u8>::empty());
    assert(decoded_body(body) == Ok::<MessageView, ProtocolErrorView>(m));
}

/// The round trip: decoding the frame of a message gives the message back,
/// whatever follows the frame.
///
/// It holds of every message whose envelope names the type of its payload
/// and whose strings can be written. For a compressed message it rests on
/// the compressor: that decompressing what it produced gives the payload
/// bytes again is asked for, not proved.
pub proof fn lemma_round_trip(m: MessageView, tail: Seq<u8>)
    requires
        m.well_formed(),
        envelope_fits(m.envelope),
        payload_fits(m.payload),
        encoded(m) is Ok,
        compressor_is_undone(m),
    ensures
        decoded(encoded(m)->Ok_0 + tail) == Ok::<(MessageView, Seq<u8>), ProtocolErrorView>(
            (m, tail),
        ),
{
    let region = region_of_payload(m.envelope.compressed, payload_bytes(m.payload))->Ok_0;
    lemma_round_trip_with_region(m, region, tail);
}

/// The round trip of a message that is not compressed, which rests on
/// nothing outside this library: whenever such a message has a frame,
/// decoding the frame gives the message back and leaves what followed.
pub proof fn lemma_round_trip_uncompressed(m: MessageView, tail: Seq<u8>)
    requires
        m.well_formed(),
        envelope_fits(m.envelope),
        payload_fits(m.payload),
        !m.envelope.compressed,
        encoded(m) is Ok,
    ensures
        encoded(m) == sealed(envelope_bytes(m.envelope, m.envelope.message_type) + payload_bytes(
            m.payload,
        )),
        decoded(encoded(m)->Ok_0 + tail) == Ok::<(MessageView, Seq<u8>), ProtocolErrorView>(
            (m, tail),
        ),
{
    lemma_round_trip(m, tail);
}

/// Two messages with the same frame are the same message: nothing that the
/// round trip gives back is lost or confused on the wire.
pub proof fn lemma_encoding_is_injective(a: MessageView, b: MessageView)
    requires
        a.well_formed(),
        b.well_formed(),
        envelope_fits(a.envelope),
        envelope_fits(b.envelope),
        payload_fits(a.payload),
        payload_fits(b.payload),
        compressor_is_undone(a),
        compressor_is_undone(b),
        encoded(a) is Ok,
        encoded(a) == encoded(b),
    ensures
        a == b,
{
    lemma_round_trip(a, Seq::empty());
    lemma_round_trip(b, Seq::empty());
}

/// The pairing rule on the way in: whatever decodes, decodes to a message
/// whose envelope names the type of its payload.
pub proof fn lemma_decoded_is_well_formed(body: Seq<u8>)
    ensures
        decoded_body(body) matches Ok(m) ==> m.well_formed(),
{
}

/// The size rule: a frame is refused exactly when its body is over the
/// limit, the refusal reports a size over the limit it reports, and a frame
/// that is built is four bytes longer than its body.
pub proof fn lemma_size_enforcement(body: Seq<u8>)
    requires
        body.len() <= usize::MAX,
    ensures
        sealed(body) is Ok <==> body.len() <= MAX_FRAME_SIZE,
        sealed(body) matches Ok(frame) ==> frame.len() == body.len() + 4,
        sealed(body) matches Err(e) ==> e matches ProtocolErrorView::FrameTooLarge(size, max)
            && size == body.len() && max == MAX_FRAME_SIZE && size > max,
{
    lemma_be_bytes_len(body.len(), 4);
}

/// A payload without fields adds nothing: the frame of an uncompressed
/// heartbeat or handshake acknowledgment is the length prefix and the
/// envelope, 41 bytes and the UTF-8 form of the agent identifier.
pub proof fn lemma_empty_payload_frame(m: MessageView)
    requires
        m.payload is Heartbeat || m.payload is HandshakeAck,
        !m.envelope.compressed,
        envelope_fits(m.envelope),
        encode_utf8(m.envelope.agent_id).len() + 37 <= MAX_FRAME_SIZE,
    ensures
        payload_bytes(m.payload).len() == 0,
        encoded(m) == sealed(envelope_bytes(m.envelope, m.payload.message_type())),
        encoded(m) matches Ok(frame) && frame.len() == 41 + encode_utf8(
            m.envelope.agent_id,
        ).len(),
{
    reveal(i64_bytes);
    reveal(string_bytes);
    reveal(bool_bytes);
    let header = envelope_bytes(m.envelope, m.payload.message_type());
    assert(header + payload_bytes(m.payload) =~= header);
    lemma_le_bytes_len(i64_pattern(m.envelope.timestamp_utc_ms), 8);
    lemma_le_bytes_len(encode_utf8(m.envelope.agent_id).len(), 8);
    lemma_be_bytes_len(header.len(), 4);
}

/// An absent optional string is one zero byte and comes back absent; a
/// present but empty one is written otherwise and comes back present.
pub proof fn lemma_absent_is_not_empty(rest: Seq<u8>)
    ensures
        opt_string_bytes(None) == seq![0u8],
        parse_opt_string(opt_string_bytes(None) + rest) == Ok::<
            (Option<Seq<char>>, Seq<u8>),
            ProtocolErrorView,
        >((None, rest)),
        parse_opt_string(opt_string_bytes(Some(Seq::<char>::empty())) + rest) == Ok::<
            (Option<Seq<char>>, Seq<u8>),
            ProtocolErrorView,
        >((Some(Seq::<char>::empty()), rest)),
        opt_string_bytes(None) != opt_string_bytes(Some(Seq::<char>::empty())),
{
    reveal(opt_string_bytes);
    reveal(string_bytes);
    lemma_parse_opt_string(None, rest);
    assert(encode_utf8(Seq::<char>::empty()).len() == 0);
    lemma_parse_opt_string(Some(Seq::<char>::empty()), rest);
    assert(opt_string_bytes(Some(Seq::<char>::empty()))[0] == 1u8);
    assert(opt_string_bytes(None)[0] == 0u8);
}

} // verus!
