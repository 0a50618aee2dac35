//! Integration tests for the monitoring protocol: version compatibility,
//! message type conversions, capability flags, and encode/decode round trips
//! with and without compression.

use agent::protocol::reader::ByteReader;
use agent::protocol::{
    AgentIdentity, BackpressureSignal, Envelope, FrameCodec, Message, MessageAck, MessagePayload,
    MessageType, OsType, Percent, ProcessSample, ProtocolError, ProtocolVersion, SnapshotPayload,
};

fn id(n: u128) -> [u8; 16] {
    n.to_le_bytes()
}

fn pct(v: f32) -> Percent {
    Percent { bits: v.to_bits() }
}

fn envelope(
    message_type: MessageType,
    message_id: u128,
    timestamp_utc_ms: i64,
    compressed: bool,
) -> Envelope {
    Envelope {
        version: ProtocolVersion::current(),
        message_type,
        message_id: id(message_id),
        timestamp_utc_ms,
        agent_id: "test-agent".to_string(),
        platform: OsType::Linux,
        compressed,
    }
}

// Protocol version compatibility

#[test]
fn protocol_version_same_is_compatible() {
    let v1_0 = ProtocolVersion { major: 1, minor: 0 };
    assert!(v1_0.is_compatible_with(&v1_0), "Same version should be compatible");
}

#[test]
fn protocol_version_higher_minor_is_compatible() {
    let v1_0 = ProtocolVersion { major: 1, minor: 0 };
    let v1_1 = ProtocolVersion { major: 1, minor: 1 };
    assert!(
        v1_1.is_compatible_with(&v1_0),
        "Higher minor version should be compatible (forward compatible)"
    );
}

#[test]
fn protocol_version_different_major_is_incompatible() {
    let v1_0 = ProtocolVersion { major: 1, minor: 0 };
    let v2_0 = ProtocolVersion { major: 2, minor: 0 };
    assert!(
        !v1_0.is_compatible_with(&v2_0),
        "Different major version should not be compatible"
    );
}

// Message type conversions

#[test]
fn message_type_from_u8_all_types() {
    assert_eq!(MessageType::from_u8(1).unwrap(), MessageType::Handshake);
    assert_eq!(MessageType::from_u8(2).unwrap(), MessageType::HandshakeAck);
    assert_eq!(MessageType::from_u8(3).unwrap(), MessageType::Heartbeat);
    assert_eq!(MessageType::from_u8(4).unwrap(), MessageType::Snapshot);
    assert_eq!(MessageType::from_u8(5).unwrap(), MessageType::Ack);
    assert_eq!(MessageType::from_u8(6).unwrap(), MessageType::Backpressure);
    assert_eq!(MessageType::from_u8(7).unwrap(), MessageType::Error);
}

#[test]
fn message_type_from_u8_invalid_type() {
    assert!(MessageType::from_u8(0).is_err(), "Type 0 should be invalid");
    assert!(MessageType::from_u8(8).is_err(), "Type 8 should be invalid");
    assert!(MessageType::from_u8(255).is_err(), "Type 255 should be invalid");
}

// Agent identity and capabilities

#[test]
fn agent_identity_capabilities_all_process() {
    let identity = AgentIdentity {
        instance_id: "agent-001".to_string(),
        os_type: OsType::Linux,
        agent_version: "0.1.0".to_string(),
        protocol_version: ProtocolVersion::current(),
        capabilities: AgentIdentity::CAP_ALL_PROCESS,
    };
    assert!(identity.supports_all_process());
    assert!(!identity.supports_compression());
}

#[test]
fn agent_identity_capabilities_compression() {
    let identity = AgentIdentity {
        instance_id: "agent-002".to_string(),
        os_type: OsType::Windows,
        agent_version: "0.1.0".to_string(),
        protocol_version: ProtocolVersion::current(),
        capabilities: AgentIdentity::CAP_COMPRESSION,
    };
    assert!(!identity.supports_all_process());
    assert!(identity.supports_compression());
}

#[test]
fn agent_identity_capabilities_both() {
    let capabilities = AgentIdentity::CAP_ALL_PROCESS | AgentIdentity::CAP_COMPRESSION;
    let identity = AgentIdentity {
        instance_id: "agent-003".to_string(),
        os_type: OsType::Linux,
        agent_version: "0.1.0".to_string(),
        protocol_version: ProtocolVersion::current(),
        capabilities,
    };
    assert!(identity.supports_all_process());
    assert!(identity.supports_compression());
}

// Encoding and decoding round trips

#[test]
fn encode_decode_handshake_message() {
    let original = Message {
        envelope: envelope(MessageType::Handshake, 1, 1703174400, false),
        payload: MessagePayload::Handshake(AgentIdentity {
            instance_id: "test-agent-001".to_string(),
            os_type: OsType::Linux,
            agent_version: "0.1.0".to_string(),
            protocol_version: ProtocolVersion::current(),
            capabilities: AgentIdentity::CAP_ALL_PROCESS | AgentIdentity::CAP_COMPRESSION,
        }),
    };

    let encoded = FrameCodec::encode(&original).expect("Failed to encode handshake");
    assert!(!encoded.is_empty(), "Encoded message should not be empty");

    let mut cursor = ByteReader::new(&encoded);
    let decoded = FrameCodec::decode(&mut cursor).expect("Failed to decode handshake");

    assert_eq!(decoded.envelope.message_id, original.envelope.message_id);
    assert_eq!(decoded.envelope.message_type, MessageType::Handshake);
}

#[test]
fn encode_decode_snapshot_message() {
    let original = Message {
        envelope: envelope(MessageType::Snapshot, 42, 1703174405, false),
        payload: MessagePayload::Snapshot(SnapshotPayload {
            window_start_secs: 1703174400,
            window_end_secs: 1703174410,
            total_cpu_percent: pct(45.5),
            memory_used_bytes: 8_000_000_000,
            memory_total_bytes: 16_000_000_000,
            processes: vec![
                ProcessSample {
                    pid: 1001,
                    name: "chrome".to_string(),
                    cpu_percent: pct(25.0),
                    memory_bytes: 2_000_000_000,
                    memory_percent: pct(12.5),
                    cmdline: Some(
                        "/usr/bin/chrome --user-data-dir=~/.config/google-chrome".to_string(),
                    ),
                },
                ProcessSample {
                    pid: 1002,
                    name: "rust-app".to_string(),
                    cpu_percent: pct(15.0),
                    memory_bytes: 500_000_000,
                    memory_percent: pct(3.125),
                    cmdline: Some("/home/user/app/rust-app".to_string()),
                },
                ProcessSample {
                    pid: 1003,
                    name: "sshd".to_string(),
                    cpu_percent: pct(5.5),
                    memory_bytes: 100_000_000,
                    memory_percent: pct(0.625),
                    cmdline: None,
                },
            ],
            truncated: false,
        }),
    };

    let encoded = FrameCodec::encode(&original).expect("Failed to encode snapshot");
    let mut cursor = ByteReader::new(&encoded);
    let decoded = FrameCodec::decode(&mut cursor).expect("Failed to decode snapshot");

    assert_eq!(decoded.envelope.message_type, MessageType::Snapshot);
    assert_eq!(decoded.envelope.message_id, id(42));
}

#[test]
fn encode_decode_ack_message() {
    let original = Message {
        envelope: envelope(MessageType::Ack, 100, 1703174410, false),
        payload: MessagePayload::Ack(MessageAck {
            message_id: id(99),
            success: true,
            error_code: None,
        }),
    };

    let encoded = FrameCodec::encode(&original).expect("Failed to encode ack");
    let mut cursor = ByteReader::new(&encoded);
    let decoded = FrameCodec::decode(&mut cursor).expect("Failed to decode ack");

    assert_eq!(decoded.envelope.message_type, MessageType::Ack);
}

#[test]
fn encode_decode_backpressure_message() {
    let original = Message {
        envelope: envelope(MessageType::Backpressure, 50, 1703174415, false),
        payload: MessagePayload::Backpressure(BackpressureSignal {
            throttle_delay_ms: 5,
            reason: Some("slow down".to_string()),
        }),
    };

    let encoded = FrameCodec::encode(&original).expect("Failed to encode backpressure");
    let mut cursor = ByteReader::new(&encoded);
    let decoded = FrameCodec::decode(&mut cursor).expect("Failed to decode backpressure");

    assert_eq!(decoded.envelope.message_type, MessageType::Backpressure);
}

// Compression

#[test]
fn encode_decode_with_compression() {
    let mut processes = Vec::new();
    for i in 0..100 {
        processes.push(ProcessSample {
            pid: 2000 + i,
            name: format!("process-{:03}", i),
            cpu_percent: pct((i as f32) * 0.1),
            memory_bytes: (i as u64) * 1_000_000,
            memory_percent: pct((i as f32) * 0.01),
            cmdline: Some(format!(
                "/usr/bin/process-{:03} --arg1=value{} --arg2=/path/to/file",
                i, i
            )),
        });
    }

    let message = Message {
        envelope: envelope(MessageType::Snapshot, 200, 1703174420, true),
        payload: MessagePayload::Snapshot(SnapshotPayload {
            window_start_secs: 1703174410,
            window_end_secs: 1703174420,
            total_cpu_percent: pct(75.0),
            memory_used_bytes: 16_000_000_000,
            memory_total_bytes: 32_000_000_000,
            processes,
            truncated: false,
        }),
    };

    let encoded = FrameCodec::encode(&message).expect("Failed to encode with compression");

    let message_uncompressed = Message {
        envelope: Envelope { compressed: false, ..message.envelope.clone() },
        payload: message.payload.clone(),
    };
    let encoded_uncompressed = FrameCodec::encode(&message_uncompressed)
        .expect("Failed to encode without compression");

    assert!(
        encoded.len() < encoded_uncompressed.len(),
        "Compressed frame ({}) should be smaller than uncompressed ({})",
        encoded.len(),
        encoded_uncompressed.len()
    );

    let mut cursor = ByteReader::new(&encoded);
    let decoded = FrameCodec::decode(&mut cursor).expect("Failed to decode compressed message");

    assert_eq!(decoded.envelope.message_type, MessageType::Snapshot);
    assert_eq!(decoded.envelope.message_id, id(200));
}

// Frame size validation

#[test]
fn frame_size_validation_oversized_payload() {
    let mut processes = Vec::new();
    for i in 0..10000 {
        processes.push(ProcessSample {
            pid: i as u32,
            name: format!("very-long-process-name-with-lots-of-characters-{:05}", i),
            cpu_percent: pct(1.0),
            memory_bytes: 1_000_000,
            memory_percent: pct(0.01),
            cmdline: Some(format!(
                "/very/long/command/line/path/with/many/arguments/and/environment/variables/{:05}",
                i
            )),
        });
    }

    let message = Message {
        envelope: envelope(MessageType::Snapshot, 999, 1703174425, false),
        payload: MessagePayload::Snapshot(SnapshotPayload {
            window_start_secs: 1703174400,
            window_end_secs: 1703174430,
            total_cpu_percent: pct(100.0),
            memory_used_bytes: 32_000_000_000,
            memory_total_bytes: 64_000_000_000,
            processes,
            truncated: false,
        }),
    };

    let result = FrameCodec::encode(&message);
    assert!(result.is_err(), "Should reject oversized frame");

    match result.unwrap_err() {
        ProtocolError::FrameTooLarge(size, max) => {
            assert!(size > max, "Reported size should exceed max");
        }
        _ => panic!("Expected FrameTooLarge error"),
    }
}

// Edge cases

#[test]
fn heartbeat_message_minimal_payload() {
    let message = Message {
        envelope: envelope(MessageType::Heartbeat, 0, 1703174430, false),
        payload: MessagePayload::Heartbeat,
    };

    let encoded = FrameCodec::encode(&message).expect("Failed to encode heartbeat");
    let mut cursor = ByteReader::new(&encoded);
    let decoded = FrameCodec::decode(&mut cursor).expect("Failed to decode heartbeat");

    assert_eq!(decoded.envelope.message_type, MessageType::Heartbeat);
    assert!(encoded.len() < 100, "Heartbeat frame should be small");
}

#[test]
fn error_message_with_details() {
    let message = Message {
        envelope: envelope(MessageType::Error, 555, 1703174435, false),
        payload: MessagePayload::Error {
            code: 1001,
            message: "Agent encountered an internal error while sampling processes".to_string(),
        },
    };

    let encoded = FrameCodec::encode(&message).expect("Failed to encode error");
    let mut cursor = ByteReader::new(&encoded);
    let decoded = FrameCodec::decode(&mut cursor).expect("Failed to decode error");

    assert_eq!(decoded.envelope.message_type, MessageType::Error);
}

#[test]
fn snapshot_with_no_processes() {
    let message = Message {
        envelope: envelope(MessageType::Snapshot, 10, 1703174440, false),
        payload: MessagePayload::Snapshot(SnapshotPayload {
            window_start_secs: 1703174435,
            window_end_secs: 1703174440,
            total_cpu_percent: pct(0.1),
            memory_used_bytes: 100_000_000,
            memory_total_bytes: 8_000_000_000,
            processes: vec![],
            truncated: false,
        }),
    };

    let encoded = FrameCodec::encode(&message).expect("Failed to encode empty snapshot");
    let mut cursor = ByteReader::new(&encoded);
    let decoded = FrameCodec::decode(&mut cursor).expect("Failed to decode empty snapshot");

    assert_eq!(decoded.envelope.message_type, MessageType::Snapshot);
}

#[test]
fn snapshot_with_truncation_flag() {
    let message = Message {
        envelope: envelope(MessageType::Snapshot, 11, 1703174445, false),
        payload: MessagePayload::Snapshot(SnapshotPayload {
            window_start_secs: 1703174440,
            window_end_secs: 1703174445,
            total_cpu_percent: pct(95.0),
            memory_used_bytes: 30_000_000_000,
            memory_total_bytes: 32_000_000_000,
            processes: vec![ProcessSample {
                pid: 1,
                name: "init".to_string(),
                cpu_percent: pct(0.1),
                memory_bytes: 1_000_000,
                memory_percent: pct(0.003),
                cmdline: None,
            }],
            truncated: true,
        }),
    };

    let encoded = FrameCodec::encode(&message).expect("Failed to encode truncated snapshot");
    let mut cursor = ByteReader::new(&encoded);
    let decoded = FrameCodec::decode(&mut cursor).expect("Failed to decode truncated snapshot");

    assert_eq!(decoded.envelope.message_type, MessageType::Snapshot);
}

#[test]
fn cross_language_serialization_snapshot() {
    // The encoded bytes are what an implementation in another language reads;
    // here they go through an in-memory writer in place of a shared file.
    let snapshot = SnapshotPayload {
        window_start_secs: 1703174400,
        window_end_secs: 1703174410,
        total_cpu_percent: pct(75.5),
        memory_used_bytes: 16_000_000_000,
        memory_total_bytes: 32_000_000_000,
        processes: vec![
            ProcessSample {
                pid: 1001,
                name: "chrome".to_string(),
                cpu_percent: pct(45.0),
                memory_bytes: 2_000_000_000,
                memory_percent: pct(6.25),
                cmdline: Some(
                    "/usr/bin/chrome --user-data-dir=/home/user/.config/google-chrome".to_string(),
                ),
            },
            ProcessSample {
                pid: 1002,
                name: "firefox".to_string(),
                cpu_percent: pct(20.0),
                memory_bytes: 1_500_000_000,
                memory_percent: pct(4.6875),
                cmdline: Some("/usr/bin/firefox".to_string()),
            },
            ProcessSample {
                pid: 1003,
                name: "code".to_string(),
                cpu_percent: pct(10.5),
                memory_bytes: 800_000_000,
                memory_percent: pct(2.5),
                cmdline: None,
            },
        ],
        truncated: false,
    };

    let message = Message {
        envelope: envelope(MessageType::Snapshot, 42, 1703174405, false),
        payload: MessagePayload::Snapshot(snapshot),
    };

    let encoded = FrameCodec::encode(&message).expect("Failed to encode");

    let mut cursor = ByteReader::new(&encoded);
    let decoded = FrameCodec::decode(&mut cursor).expect("Failed to decode");
    assert_eq!(decoded.envelope.message_id, id(42));
    assert_eq!(decoded.envelope.message_type, MessageType::Snapshot);

    let mut shared: Vec<u8> = Vec::new();
    std::io::Write::write_all(&mut shared, &encoded).expect("Failed to write test data");
    let written = shared.clone();
    assert_eq!(written, encoded, "Written data should match encoded data");
}
