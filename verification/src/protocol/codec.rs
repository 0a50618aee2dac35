//! The frame codec: a message to the bytes of one frame, and back.
//!
//! A frame is a four-byte big-endian length followed by a body of that many
//! bytes. The body is the envelope followed by the payload region, which is
//! the payload's bytes, compressed when the envelope says so. No body is
//! longer than [`MAX_FRAME_SIZE`].

use vstd::prelude::*;
use crate::protocol::compress::{zstd_decode_all, zstd_decoded, zstd_encode_all, zstd_encoded};
use crate::protocol::error::{short_read_text, ProtocolError, ProtocolErrorView};
use crate::protocol::kinds::{MessageType, OsType};
use crate::protocol::laws::{lemma_decoded_is_well_formed, lemma_round_trip};
use crate::protocol::layout::{
    ack_bytes, after_processes, backpressure_bytes, envelope_bytes, envelope_fits, identity_bytes,
    lemma_processes_bytes_push, parse_ack, parse_backpressure, parse_envelope, parse_error,
    parse_identity, parse_message_id, parse_message_type, parse_payload, parse_percent,
    parse_platform, parse_process, parse_processes, parse_snapshot, parse_version, payload_bytes,
    payload_fits, percent_bytes, process_bytes, process_fits, processes_bytes, snapshot_bytes,
    version_bytes,
};
use crate::protocol::message::{
    opt_string_view, process_views, AgentIdentity, BackpressureSignal, Envelope, Message,
    MessageAck, MessagePayload, MessagePayloadView, MessageView, Percent, ProcessSample,
    ProcessSampleView, SnapshotPayload,
};
use crate::protocol::reader::{
    read_bool, read_i64_le, read_optional_string, read_optional_u32, read_string, read_u32_le,
    read_u64_le, read_u8, reads_as, ByteReader,
};
use crate::protocol::version::ProtocolVersion;
use crate::protocol::wire::{
    be_bytes, be_value, lemma_be_bytes_len, lemma_be_value_4, opt_string_bytes, opt_string_fits,
    parse_bytes, Parsed,
};
use crate::protocol::writer::{
    write_bool, write_bytes, write_i64_le, write_optional_string, write_optional_u32,
    write_string, write_u32_be, write_u32_le, write_u64_le,
};

verus! {

/// The longest frame body, in bytes: 256 KiB.
pub const MAX_FRAME_SIZE: usize = 262144;

/// The size that a compressed frame should stay under, in bytes: 64 KiB.
/// A guideline for callers; the codec does not enforce it.
pub const TARGET_FRAME_SIZE: usize = 65536;

/// The compression level that the codec asks of zstd.
pub const COMPRESSION_LEVEL: i32 = 3;

// ---------------------------------------------------------------------------
// What a frame is
// ---------------------------------------------------------------------------

/// An outcome of the compressor as an outcome of the codec.
pub open spec fn region_outcome(r: Result<Seq<u8>, Seq<char>>) -> Result<
    Seq<u8>,
    ProtocolErrorView,
> {
    match r {
        Ok(bytes) => Ok(bytes),
        Err(text) => Err(ProtocolErrorView::Compression(text)),
    }
}

/// The payload region that stands for these payload bytes.
pub open spec fn region_of_payload(compressed: bool, payload: Seq<u8>) -> Result<
    Seq<u8>,
    ProtocolErrorView,
> {
    if compressed {
        region_outcome(zstd_encoded(payload, COMPRESSION_LEVEL))
    } else {
        Ok(payload)
    }
}

/// The payload bytes that this payload region stands for.
pub open spec fn payload_of_region(compressed: bool, region: Seq<u8>) -> Result<
    Seq<u8>,
    ProtocolErrorView,
> {
    if compressed {
        region_outcome(zstd_decoded(region))
    } else {
        Ok(region)
    }
}

/// The frame around a body: refused when the body is too long, else the
/// big-endian length and the body.
pub open spec fn sealed(body: Seq<u8>) -> Result<Seq<u8>, ProtocolErrorView> {
    if body.len() > MAX_FRAME_SIZE {
        Err(ProtocolErrorView::FrameTooLarge(body.len() as usize, MAX_FRAME_SIZE))
    } else {
        Ok(be_bytes(body.len(), 4) + body)
    }
}

/// The frame of a message whose payload region is given.
pub open spec fn assembled(m: MessageView, region: Seq<u8>) -> Result<Seq<u8>, ProtocolErrorView> {
    sealed(envelope_bytes(m.envelope, m.payload.message_type()) + region)
}

/// The frame of a message.
pub open spec fn encoded(m: MessageView) -> Result<Seq<u8>, ProtocolErrorView> {
    match region_of_payload(m.envelope.compressed, payload_bytes(m.payload)) {
        Err(e) => Err(e),
        Ok(region) => assembled(m, region),
    }
}

/// Whether decompressing what the compressor makes of a message's payload
/// bytes gives those bytes again. It holds of every message that is not
/// compressed. For the others it is what is expected of the compressor; it
/// is proved nowhere.
pub open spec fn compressor_is_undone(m: MessageView) -> bool {
    m.envelope.compressed ==> (zstd_encoded(payload_bytes(m.payload), COMPRESSION_LEVEL)
        matches Ok(region) && zstd_decoded(region) == Ok::<Seq<u8>, Seq<char>>(
        payload_bytes(m.payload),
    ))
}

/// The failure of a stream that ends inside a frame.
pub open spec fn short_read_failure() -> ProtocolErrorView {
    ProtocolErrorView::Io(short_read_text())
}

/// The body length that a frame's first four bytes declare.
pub open spec fn declared_length(prefix: Seq<u8>) -> nat {
    be_value(prefix)
}

/// Cuts the first frame off a stream: its body, and the bytes after it.
/// A declared length over the limit is refused before the body is looked at.
pub open spec fn split_frame(input: Seq<u8>) -> Result<(Seq<u8>, Seq<u8>), ProtocolErrorView> {
    if input.len() < 4 {
        Err(short_read_failure())
    } else {
        let n = declared_length(input.take(4));
        if n > MAX_FRAME_SIZE {
            Err(ProtocolErrorView::FrameTooLarge(n as usize, MAX_FRAME_SIZE))
        } else if input.len() - 4 < n {
            Err(short_read_failure())
        } else {
            Ok((input.subrange(4, 4 + n as int), input.skip(4 + n as int)))
        }
    }
}

/// Where a stream stands after a frame could not be cut off it. A length
/// prefix that declares too much has been read by the time it is refused, so
/// the stream stands past its four bytes. A stream that ends early stands
/// where it stood.
pub open spec fn after_refused_frame(input: Seq<u8>, failure: ProtocolErrorView) -> Seq<u8> {
    if failure is FrameTooLarge {
        input.skip(4)
    } else {
        input
    }
}

/// The message that a frame body spells: the envelope, then the payload
/// that its type byte selects, read from the payload region once that is
/// decompressed where the envelope says so.
pub open spec fn decoded_body(body: Seq<u8>) -> Result<MessageView, ProtocolErrorView> {
    match parse_envelope(body) {
        Err(e) => Err(e),
        Ok((envelope, region)) => match payload_of_region(envelope.compressed, region) {
            Err(e) => Err(e),
            Ok(bytes) => match parse_payload(envelope.message_type, bytes) {
                Err(e) => Err(e),
                Ok((payload, rest)) => Ok(MessageView { envelope, payload }),
            },
        },
    }
}

/// The first message of a stream, and the bytes after its frame.
pub open spec fn decoded(input: Seq<u8>) -> Result<(MessageView, Seq<u8>), ProtocolErrorView> {
    match split_frame(input) {
        Err(e) => Err(e),
        Ok((body, rest)) => match decoded_body(body) {
            Err(e) => Err(e),
            Ok(message) => Ok((message, rest)),
        },
    }
}

/// Whether an outcome of the encoder is the expected one.
pub open spec fn bytes_outcome_is(
    r: Result<Vec<u8>, ProtocolError>,
    expected: Result<Seq<u8>, ProtocolErrorView>,
) -> bool {
    match expected {
        Ok(bytes) => r matches Ok(out) && out@ == bytes,
        Err(e) => r matches Err(failure) && failure@ == e,
    }
}

/// Whether an outcome of the decoder is the expected one.
pub open spec fn message_outcome_is(
    r: Result<Message, ProtocolError>,
    expected: Result<MessageView, ProtocolErrorView>,
) -> bool {
    match expected {
        Ok(message) => r matches Ok(out) && out@ == message,
        Err(e) => r matches Err(failure) && failure@ == e,
    }
}

// ---------------------------------------------------------------------------
// Encoding
// ---------------------------------------------------------------------------

/// Appends a version: major byte, minor byte.
fn write_version(buf: &mut Vec<u8>, version: &ProtocolVersion)
    ensures
        final(buf)@ == old(buf)@ + version_bytes(*version),
{
    let ghost before = buf@;
    buf.push(version.major);
    buf.push(version.minor);
    assert(buf@ =~= before + version_bytes(*version));
}

/// Appends a percentage: the four little-endian bytes of its pattern.
fn write_percent(buf: &mut Vec<u8>, percent: &Percent)
    ensures
        final(buf)@ == old(buf)@ + percent_bytes(*percent),
{
    write_u32_le(buf, percent.bits);
}

/// Appends an optional string that the caller owns.
fn write_opt_string(buf: &mut Vec<u8>, value: &Option<String>)
    ensures
        final(buf)@ == old(buf)@ + opt_string_bytes(opt_string_view(*value)),
        opt_string_fits(opt_string_view(*value)),
{
    match value {
        Some(text) => write_optional_string(buf, Some(text.as_str())),
        None => write_optional_string(buf, None),
    }
}

/// Appends one process sample.
fn write_process(buf: &mut Vec<u8>, process: &ProcessSample)
    ensures
        final(buf)@ == old(buf)@ + process_bytes(process@),
        process_fits(process@),
{
    let ghost before = buf@;
    write_u32_le(buf, process.pid);
    write_string(buf, process.name.as_str());
    write_percent(buf, &process.cpu_percent);
    write_u64_le(buf, process.memory_bytes);
    write_percent(buf, &process.memory_percent);
    write_opt_string(buf, &process.cmdline);
    assert(buf@ =~= before + process_bytes(process@));
}

/// Appends an agent identity.
fn write_identity(buf: &mut Vec<u8>, identity: &AgentIdentity)
    ensures
        final(buf)@ == old(buf)@ + identity_bytes(identity@),
        payload_fits(MessagePayloadView::Handshake(identity@)),
{
    let ghost before = buf@;
    write_string(buf, identity.instance_id.as_str());
    buf.push(identity.os_type.to_u8());
    write_string(buf, identity.agent_version.as_str());
    write_version(buf, &identity.protocol_version);
    write_u32_le(buf, identity.capabilities);
    assert(buf@ =~= before + identity_bytes(identity@));
}

/// Appends a snapshot: the fixed fields, the count, every process, the flag.
fn write_snapshot(buf: &mut Vec<u8>, snapshot: &SnapshotPayload)
    ensures
        final(buf)@ == old(buf)@ + snapshot_bytes(snapshot@),
        payload_fits(MessagePayloadView::Snapshot(snapshot@)),
{
    let ghost before = buf@;
    write_i64_le(buf, snapshot.window_start_secs);
    write_i64_le(buf, snapshot.window_end_secs);
    write_percent(buf, &snapshot.total_cpu_percent);
    write_u64_le(buf, snapshot.memory_used_bytes);
    write_u64_le(buf, snapshot.memory_total_bytes);
    let count = snapshot.processes.len();
    write_u64_le(buf, count as u64);
    let ghost start = buf@;
    let ghost views = process_views(snapshot.processes@);
    let mut i: usize = 0;
    while i < count
        invariant
            i <= count,
            count == snapshot.processes@.len(),
            views == process_views(snapshot.processes@),
            buf@ == start + processes_bytes(views.take(i as int)),
            forall|j: int| 0 <= j < i ==> process_fits(#[trigger] views[j]),
        decreases count - i,
    {
        let ghost so_far = buf@;
        write_process(buf, &snapshot.processes[i]);
        proof {
            let done = views.take(i as int);
            assert(views.take(i + 1) =~= done.push(views[i as int]));
            lemma_processes_bytes_push(done, views[i as int]);
            assert(buf@ =~= start + processes_bytes(views.take(i + 1)));
        }
        i = i + 1;
    }
    write_bool(buf, snapshot.truncated);
    proof {
        assert(views.take(count as int) =~= views);
        assert(buf@ =~= before + snapshot_bytes(snapshot@));
    }
}

/// Appends an acknowledgment.
fn write_ack(buf: &mut Vec<u8>, ack: &MessageAck)
    ensures
        final(buf)@ == old(buf)@ + ack_bytes(ack@),
        payload_fits(MessagePayloadView::Ack(ack@)),
{
    let ghost before = buf@;
    write_bytes(buf, ack.message_id.as_slice());
    write_bool(buf, ack.success);
    write_optional_u32(buf, ack.error_code);
    assert(buf@ =~= before + ack_bytes(ack@));
}

/// Appends a throttle instruction.
fn write_backpressure(buf: &mut Vec<u8>, signal: &BackpressureSignal)
    ensures
        final(buf)@ == old(buf)@ + backpressure_bytes(signal@),
        payload_fits(MessagePayloadView::Backpressure(signal@)),
{
    let ghost before = buf@;
    write_u32_le(buf, signal.throttle_delay_ms);
    write_opt_string(buf, &signal.reason);
    assert(buf@ =~= before + backpressure_bytes(signal@));
}

/// The wire format framing and encoding.
pub struct FrameCodec;

impl FrameCodec {
    /// The bytes of an envelope, with the given type byte. They are never compressed.
    pub fn encode_envelope(envelope: &Envelope, message_type: MessageType) -> (out: Vec<u8>)
        ensures
            out@ == envelope_bytes(envelope@, message_type),
            envelope_fits(envelope@),
    {
        let mut buf: Vec<u8> = Vec::new();
        write_version(&mut buf, &envelope.version);
        buf.push(message_type.to_u8());
        write_bytes(&mut buf, envelope.message_id.as_slice());
        write_i64_le(&mut buf, envelope.timestamp_utc_ms);
        write_string(&mut buf, envelope.agent_id.as_str());
        buf.push(envelope.platform.to_u8());
        write_bool(&mut buf, envelope.compressed);
        assert(buf@ =~= envelope_bytes(envelope@, message_type));
        buf
    }

    /// The bytes of a payload, before any compression.
    pub fn encode_payload(payload: &MessagePayload) -> (out: Vec<u8>)
        ensures
            out@ == payload_bytes(payload@),
            payload_fits(payload@),
    {
        let mut buf: Vec<u8> = Vec::new();
        match payload {
            MessagePayload::Handshake(identity) => {
                write_identity(&mut buf, identity);
            },
            MessagePayload::HandshakeAck => {},
            MessagePayload::Heartbeat => {},
            MessagePayload::Snapshot(snapshot) => {
                write_snapshot(&mut buf, snapshot);
            },
            MessagePayload::Ack(ack) => {
                write_ack(&mut buf, ack);
            },
            MessagePayload::Backpressure(signal) => {
                write_backpressure(&mut buf, signal);
            },
            MessagePayload::Error { code, message } => {
                write_u32_le(&mut buf, *code);
                write_string(&mut buf, message.as_str());
            },
        }
        assert(buf@ =~= payload_bytes(payload@));
        buf
    }

    /// Puts a body into a frame: the body's length as four big-endian bytes,
    /// then the body. A body over the limit is refused, and nothing is built.
    pub fn seal(body: &[u8]) -> (r: Result<Vec<u8>, ProtocolError>)
        ensures
            bytes_outcome_is(r, sealed(body@)),
            r is Ok <==> body@.len() <= MAX_FRAME_SIZE,
            r matches Ok(frame) ==> frame@.len() == body@.len() + 4,
            r matches Err(e) ==> e matches ProtocolError::FrameTooLarge(size, max) && size
                == body@.len() && max == MAX_FRAME_SIZE && size > max,
    {
        proof {
            lemma_be_bytes_len(body@.len(), 4);
        }
        if body.len() > MAX_FRAME_SIZE {
            return Err(ProtocolError::FrameTooLarge(body.len(), MAX_FRAME_SIZE));
        }
        let mut frame: Vec<u8> = Vec::new();
        write_u32_be(&mut frame, body.len() as u32);
        write_bytes(&mut frame, body);
        Ok(frame)
    }

    /// Builds the frame of a message from its payload region: the envelope,
    /// the region, the size check and the length prefix.
    pub fn assemble(message: &Message, region: &[u8]) -> (r: Result<Vec<u8>, ProtocolError>)
        ensures
            bytes_outcome_is(r, assembled(message@, region@)),
            envelope_fits(message@.envelope),
            r matches Ok(frame) ==> 4 <= frame@.len() <= MAX_FRAME_SIZE + 4,
            r matches Err(e) ==> e matches ProtocolError::FrameTooLarge(size, max) && size > max
                && max == MAX_FRAME_SIZE,
    {
        let mut body = Self::encode_envelope(&message.envelope, message.payload.message_type());
        write_bytes(&mut body, region);
        Self::seal(body.as_slice())
    }

    /// Encodes a message into one frame.
    ///
    /// The type byte written is that of the payload. When the envelope asks
    /// for compression, the payload bytes are compressed with zstd and the
    /// envelope is left as it is. A body over [`MAX_FRAME_SIZE`] is refused
    /// with both sizes.
    pub fn encode(message: &Message) -> (r: Result<Vec<u8>, ProtocolError>)
        ensures
            bytes_outcome_is(r, encoded(message@)),
            r is Ok ==> envelope_fits(message@.envelope),
            payload_fits(message@.payload),
            r matches Ok(frame) ==> 4 <= frame@.len() <= MAX_FRAME_SIZE + 4,
            r matches Err(ProtocolError::FrameTooLarge(size, max)) ==> size > max && max
                == MAX_FRAME_SIZE,
            !message.envelope.compressed ==> (r is Ok <==> envelope_bytes(
                message@.envelope,
                message@.payload.message_type(),
            ).len() + payload_bytes(message@.payload).len() <= MAX_FRAME_SIZE),
            r is Ok && message@.well_formed() && compressor_is_undone(message@) ==> decoded(
                r->Ok_0@,
            ) == Ok::<(MessageView, Seq<u8>), ProtocolErrorView>((message@, Seq::empty())),
    {
        let payload = Self::encode_payload(&message.payload);
        let r = if message.envelope.compressed {
            match zstd_encode_all(payload.as_slice(), COMPRESSION_LEVEL) {
                Ok(region) => Self::assemble(message, region.as_slice()),
                Err(text) => Err(ProtocolError::Compression(text)),
            }
        } else {
            Self::assemble(message, payload.as_slice())
        };
        proof {
            if r is Ok && message@.well_formed() && compressor_is_undone(message@) {
                lemma_round_trip(message@, Seq::empty());
                assert(r->Ok_0@ + Seq::<u8>::empty() =~= r->Ok_0@);
            }
        }
        r
    }
}

// ---------------------------------------------------------------------------
// Decoding
// ---------------------------------------------------------------------------

/// Whether a read gave what a parser gives. Unlike
/// [`reads_as`], it leaves open where the reader stands after a failure.
pub open spec fn read_is<T, V>(
    r: Result<T, ProtocolError>,
    after: Seq<u8>,
    expected: Parsed<V>,
    view: spec_fn(T) -> V,
) -> bool {
    match expected {
        Ok((v, rest)) => r matches Ok(got) && view(got) == v && after == rest,
        Err(e) => r matches Err(failure) && failure@ == e,
    }
}

/// Reads a version.
fn read_version(reader: &mut ByteReader) -> (r: Result<ProtocolVersion, ProtocolError>)
    ensures
        read_is(
            r,
            final(reader).remaining(),
            parse_version(old(reader).remaining()),
            |v: ProtocolVersion| v,
        ),
{
    let major = read_u8(reader)?;
    let minor = read_u8(reader)?;
    Ok(ProtocolVersion { major, minor })
}

/// Reads a type byte and judges it.
fn read_message_type(reader: &mut ByteReader) -> (r: Result<MessageType, ProtocolError>)
    ensures
        read_is(
            r,
            final(reader).remaining(),
            parse_message_type(old(reader).remaining()),
            |t: MessageType| t,
        ),
{
    let byte = read_u8(reader)?;
    MessageType::from_u8(byte)
}

/// Reads a platform byte and judges it.
fn read_platform(reader: &mut ByteReader) -> (r: Result<OsType, ProtocolError>)
    ensures
        read_is(
            r,
            final(reader).remaining(),
            parse_platform(old(reader).remaining()),
            |p: OsType| p,
        ),
{
    let byte = read_u8(reader)?;
    OsType::from_u8(byte)
}

/// Reads the sixteen bytes of a message identifier.
fn read_message_id(reader: &mut ByteReader) -> (r: Result<[u8; 16], ProtocolError>)
    ensures
        read_is(
            r,
            final(reader).remaining(),
            parse_message_id(old(reader).remaining()),
            |id: [u8; 16]| id@,
        ),
{
    proof {
        reveal(parse_bytes);
    }
    let bytes = reader.take(16)?;
    let mut id = [0u8; 16];
    let mut i: usize = 0;
    while i < 16
        invariant
            i <= 16,
            bytes@.len() == 16,
            forall|j: int| 0 <= j < i ==> id@[j] == bytes@[j],
        decreases 16 - i,
    {
        id[i] = bytes[i];
        i = i + 1;
    }
    assert(id@ =~= bytes@);
    Ok(id)
}

/// Reads a percentage.
fn read_percent(reader: &mut ByteReader) -> (r: Result<Percent, ProtocolError>)
    ensures
        read_is(
            r,
            final(reader).remaining(),
            parse_percent(old(reader).remaining()),
            |p: Percent| p,
        ),
{
    let bits = read_u32_le(reader)?;
    Ok(Percent { bits })
}

/// Reads one process sample.
fn read_process(reader: &mut ByteReader) -> (r: Result<ProcessSample, ProtocolError>)
    ensures
        read_is(
            r,
            final(reader).remaining(),
            parse_process(old(reader).remaining()),
            |p: ProcessSample| p@,
        ),
{
    let pid = read_u32_le(reader)?;
    let name = read_string(reader)?;
    let cpu_percent = read_percent(reader)?;
    let memory_bytes = read_u64_le(reader)?;
    let memory_percent = read_percent(reader)?;
    let cmdline = read_optional_string(reader)?;
    Ok(ProcessSample { pid, name, cpu_percent, memory_bytes, memory_percent, cmdline })
}

/// Reads `count` process samples, stopping at the first that fails.
fn read_processes(reader: &mut ByteReader, count: u64) -> (r: Result<
    Vec<ProcessSample>,
    ProtocolError,
>)
    ensures
        read_is(
            r,
            final(reader).remaining(),
            parse_processes(old(reader).remaining(), count as nat),
            |ps: Vec<ProcessSample>| process_views(ps@),
        ),
{
    let ghost input = reader.remaining();
    let mut out: Vec<ProcessSample> = Vec::new();
    let mut i: u64 = 0;
    assert(process_views(out@) =~= Seq::<ProcessSampleView>::empty());
    assert(parse_processes(input, count as nat) == after_processes(
        process_views(out@),
        parse_processes(input, count as nat),
    )) by {
        match parse_processes(input, count as nat) {
            Ok((ps, rest)) => {
                assert(Seq::<ProcessSampleView>::empty() + ps =~= ps);
            },
            Err(e) => {},
        }
    }
    while i < count
        invariant
            i <= count,
            input == old(reader).remaining(),
            parse_processes(input, count as nat) == after_processes(
                process_views(out@),
                parse_processes(reader.remaining(), (count - i) as nat),
            ),
        decreases count - i,
    {
        let ghost before = reader.remaining();
        let ghost done = process_views(out@);
        let process = match read_process(reader) {
            Ok(p) => p,
            Err(e) => {
                return Err(e);
            },
        };
        let ghost first = process@;
        out.push(process);
        proof {
            assert(process_views(out@) =~= done.push(first));
            match parse_processes(reader.remaining(), (count - i - 1) as nat) {
                Ok((ps, rest)) => {
                    assert(done + (seq![first] + ps) =~= done.push(first) + ps);
                },
                Err(e) => {},
            }
        }
        i = i + 1;
    }
    proof {
        assert(process_views(out@) + Seq::<ProcessSampleView>::empty() =~= process_views(out@));
    }
    Ok(out)
}

/// Reads an agent identity.
fn read_identity(reader: &mut ByteReader) -> (r: Result<AgentIdentity, ProtocolError>)
    ensures
        read_is(
            r,
            final(reader).remaining(),
            parse_identity(old(reader).remaining()),
            |a: AgentIdentity| a@,
        ),
{
    let instance_id = read_string(reader)?;
    let os_byte = read_u8(reader)?;
    let agent_version = read_string(reader)?;
    let protocol_version = read_version(reader)?;
    let capabilities = read_u32_le(reader)?;
    let os_type = OsType::from_u8(os_byte)?;
    Ok(AgentIdentity { instance_id, os_type, agent_version, protocol_version, capabilities })
}

/// Reads a snapshot.
fn read_snapshot(reader: &mut ByteReader) -> (r: Result<SnapshotPayload, ProtocolError>)
    ensures
        read_is(
            r,
            final(reader).remaining(),
            parse_snapshot(old(reader).remaining()),
            |s: SnapshotPayload| s@,
        ),
{
    let window_start_secs = read_i64_le(reader)?;
    let window_end_secs = read_i64_le(reader)?;
    let total_cpu_percent = read_percent(reader)?;
    let memory_used_bytes = read_u64_le(reader)?;
    let memory_total_bytes = read_u64_le(reader)?;
    let count = read_u64_le(reader)?;
    let processes = read_processes(reader, count)?;
    let truncated = read_bool(reader)?;
    Ok(
        SnapshotPayload {
            window_start_secs,
            window_end_secs,
            total_cpu_percent,
            memory_used_bytes,
            memory_total_bytes,
            processes,
            truncated,
        },
    )
}

/// Reads an acknowledgment.
fn read_ack(reader: &mut ByteReader) -> (r: Result<MessageAck, ProtocolError>)
    ensures
        read_is(
            r,
            final(reader).remaining(),
            parse_ack(old(reader).remaining()),
            |a: MessageAck| a@,
        ),
{
    let message_id = read_message_id(reader)?;
    let success = read_bool(reader)?;
    let error_code = read_optional_u32(reader)?;
    Ok(MessageAck { message_id, success, error_code })
}

/// Reads a throttle instruction.
fn read_backpressure(reader: &mut ByteReader) -> (r: Result<BackpressureSignal, ProtocolError>)
    ensures
        read_is(
            r,
            final(reader).remaining(),
            parse_backpressure(old(reader).remaining()),
            |b: BackpressureSignal| b@,
        ),
{
    let throttle_delay_ms = read_u32_le(reader)?;
    let reason = read_optional_string(reader)?;
    Ok(BackpressureSignal { throttle_delay_ms, reason })
}

/// Reads an error notification.
fn read_error(reader: &mut ByteReader) -> (r: Result<MessagePayload, ProtocolError>)
    ensures
        read_is(
            r,
            final(reader).remaining(),
            parse_error(old(reader).remaining()),
            |p: MessagePayload| p@,
        ),
{
    let code = read_u32_le(reader)?;
    let message = read_string(reader)?;
    Ok(MessagePayload::Error { code, message })
}

impl FrameCodec {
    /// Reads an envelope: the fixed fields in their order. The type byte is
    /// checked as soon as it is read. After a failure the reader stands
    /// where it stood.
    pub fn decode_envelope(reader: &mut ByteReader) -> (r: Result<Envelope, ProtocolError>)
        ensures
            reads_as(
                r,
                old(reader).remaining(),
                final(reader).remaining(),
                parse_envelope(old(reader).remaining()),
                |e: Envelope| e@,
            ),
    {
        let mut probe = *reader;
        let version = read_version(&mut probe)?;
        let message_type = read_message_type(&mut probe)?;
        let message_id = read_message_id(&mut probe)?;
        let timestamp_utc_ms = read_i64_le(&mut probe)?;
        let agent_id = read_string(&mut probe)?;
        let platform = read_platform(&mut probe)?;
        let compressed = read_bool(&mut probe)?;
        *reader = probe;
        Ok(
            Envelope {
                version,
                message_type,
                message_id,
                timestamp_utc_ms,
                agent_id,
                platform,
                compressed,
            },
        )
    }

    /// Reads the payload that goes with a message type from payload bytes
    /// that are not compressed. Bytes after the payload are left alone.
    pub fn decode_payload(message_type: MessageType, bytes: &[u8]) -> (r: Result<
        MessagePayload,
        ProtocolError,
    >)
        ensures
            match parse_payload(message_type, bytes@) {
                Ok((payload, rest)) => r matches Ok(got) && got@ == payload,
                Err(e) => r matches Err(failure) && failure@ == e,
            },
    {
        let mut reader = ByteReader::new(bytes);
        match message_type {
            MessageType::Handshake => {
                let identity = read_identity(&mut reader)?;
                Ok(MessagePayload::Handshake(identity))
            },
            MessageType::HandshakeAck => Ok(MessagePayload::HandshakeAck),
            MessageType::Heartbeat => Ok(MessagePayload::Heartbeat),
            MessageType::Snapshot => {
                let snapshot = read_snapshot(&mut reader)?;
                Ok(MessagePayload::Snapshot(snapshot))
            },
            MessageType::Ack => {
                let ack = read_ack(&mut reader)?;
                Ok(MessagePayload::Ack(ack))
            },
            MessageType::Backpressure => {
                let signal = read_backpressure(&mut reader)?;
                Ok(MessagePayload::Backpressure(signal))
            },
            MessageType::Error => read_error(&mut reader),
        }
    }

    /// The body length that the four bytes of a length prefix declare, read
    /// big-endian. A length over [`MAX_FRAME_SIZE`] is refused with both
    /// sizes, so that no body of that length is ever waited for.
    pub fn frame_length(prefix: &[u8; 4]) -> (r: Result<usize, ProtocolError>)
        ensures
            declared_length(prefix@) <= MAX_FRAME_SIZE ==> r == Ok::<usize, ProtocolError>(
                declared_length(prefix@) as usize,
            ),
            declared_length(prefix@) > MAX_FRAME_SIZE ==> r == Err::<usize, ProtocolError>(
                ProtocolError::FrameTooLarge(declared_length(prefix@) as usize, MAX_FRAME_SIZE),
            ),
    {
        proof {
            lemma_be_value_4(prefix@);
        }
        let n: u32 = prefix[0] as u32 * 0x100_0000 + prefix[1] as u32 * 0x1_0000 + prefix[2] as u32
            * 0x100 + prefix[3] as u32;
        let length = n as usize;
        if length > MAX_FRAME_SIZE {
            Err(ProtocolError::FrameTooLarge(length, MAX_FRAME_SIZE))
        } else {
            Ok(length)
        }
    }

    /// Decodes a frame body: the envelope, then the payload region,
    /// decompressed when the envelope says it is compressed, then the
    /// payload that the type byte selects.
    pub fn decode_body(body: &[u8]) -> (r: Result<Message, ProtocolError>)
        ensures
            message_outcome_is(r, decoded_body(body@)),
            r matches Ok(message) ==> message@.well_formed(),
    {
        proof {
            lemma_decoded_is_well_formed(body@);
            reveal(parse_bytes);
        }
        let mut reader = ByteReader::new(body);
        let envelope = Self::decode_envelope(&mut reader)?;
        let ghost after_envelope = reader.remaining();
        let region = reader.take(reader.remaining_len())?;
        assert(region@ =~= after_envelope);
        let payload = if envelope.compressed {
            match zstd_decode_all(region) {
                Ok(bytes) => Self::decode_payload(envelope.message_type, bytes.as_slice())?,
                Err(text) => {
                    return Err(ProtocolError::Compression(text));
                },
            }
        } else {
            Self::decode_payload(envelope.message_type, region)?
        };
        Ok(Message { envelope, payload })
    }

    /// Decodes the next frame of a stream held in memory.
    ///
    /// The four bytes of the length prefix are read first. Where there are
    /// not four, the call fails and the reader stays where it was. Where they
    /// declare a body over [`MAX_FRAME_SIZE`], the call fails at once, with
    /// the reader past the prefix and no byte of a body looked at. Where the
    /// stream ends before the declared body does, the call fails and the
    /// reader stays where it was. Otherwise the reader moves past the frame,
    /// whether or not its body decodes, so that the next call meets the next
    /// frame.
    pub fn decode(reader: &mut ByteReader) -> (r: Result<Message, ProtocolError>)
        ensures
            match split_frame(old(reader).remaining()) {
                Err(e) => r matches Err(failure) && failure@ == e && final(reader).remaining()
                    == after_refused_frame(old(reader).remaining(), e),
                Ok((body, rest)) => message_outcome_is(r, decoded_body(body))
                    && final(reader).remaining() == rest,
            },
            r matches Ok(message) ==> message@.well_formed(),
    {
        proof {
            reveal(parse_bytes);
        }
        let ghost input = reader.remaining();
        let mut probe = *reader;
        let prefix = match probe.take(4) {
            Ok(bytes) => bytes,
            Err(_) => {
                return Err(ProtocolError::short_read());
            },
        };
        let four: [u8; 4] = [prefix[0], prefix[1], prefix[2], prefix[3]];
        assert(four@ =~= prefix@);
        let length = match Self::frame_length(&four) {
            Ok(n) => n,
            Err(e) => {
                *reader = probe;
                return Err(e);
            },
        };
        let body = match probe.take(length) {
            Ok(bytes) => bytes,
            Err(_) => {
                return Err(ProtocolError::short_read());
            },
        };
        proof {
            assert(body@ =~= input.subrange(4, 4 + length));
            assert(probe.remaining() =~= input.skip(4 + length));
        }
        *reader = probe;
        Self::decode_body(body)
    }
}

} // verus!
