//! Unit tests of the protocol types and of the codec on single messages.

use agent::protocol::reader::ByteReader;
use agent::protocol::{
    AgentIdentity, BackpressureSignal, Envelope, FrameCodec, Message, MessageAck, MessagePayload,
    MessageType, OsType, Percent, ProcessSample, ProtocolError, ProtocolVersion, SnapshotPayload,
};

fn id(n: u128) -> [u8; 16] {
    n.to_le_bytes()
}

fn pct(v: f32) -> Percent {
    Percent { bits: v.to_bits() }
}

fn envelope(
    message_type: MessageType,
    message_id: u128,
    timestamp_utc_ms: i64,
    compressed: bool,
) -> Envelope {
    Envelope {
        version: ProtocolVersion::current(),
        message_type,
        message_id: id(message_id),
        timestamp_utc_ms,
        agent_id: "unit-agent".to_string(),
        platform: OsType::Windows,
        compressed,
    }
}

#[test]
fn test_protocol_version_compatibility() {
    let v1_0 = ProtocolVersion { major: 1, minor: 0 };
    let v1_1 = ProtocolVersion { major: 1, minor: 1 };
    let v2_0 = ProtocolVersion { major: 2, minor: 0 };

    assert!(v1_0.is_compatible_with(&v1_0));
    assert!(v1_1.is_compatible_with(&v1_0));
    assert!(!v1_0.is_compatible_with(&v1_1));
    assert!(!v2_0.is_compatible_with(&v1_0));
}

#[test]
fn test_message_type_conversion() {
    assert_eq!(MessageType::Handshake.to_u8(), 1);
    assert_eq!(MessageType::from_u8(1).unwrap(), MessageType::Handshake);
    assert_eq!(MessageType::Snapshot.to_u8(), 4);
    assert_eq!(MessageType::from_u8(4).unwrap(), MessageType::Snapshot);
    assert!(MessageType::from_u8(99).is_err());
}

#[test]
fn test_agent_identity_capabilities() {
    let identity = AgentIdentity {
        instance_id: "test-001".to_string(),
        os_type: OsType::Linux,
        agent_version: "0.1.0".to_string(),
        protocol_version: ProtocolVersion::current(),
        capabilities: AgentIdentity::CAP_ALL_PROCESS | AgentIdentity::CAP_COMPRESSION,
    };

    assert!(identity.supports_all_process());
    assert!(identity.supports_compression());

    let identity_no_caps = AgentIdentity { capabilities: 0, ..identity };
    assert!(!identity_no_caps.supports_all_process());
    assert!(!identity_no_caps.supports_compression());
}

#[test]
fn test_encode_decode_handshake() {
    let identity = AgentIdentity {
        instance_id: "agent-123".to_string(),
        os_type: OsType::Windows,
        agent_version: "0.1.0".to_string(),
        protocol_version: ProtocolVersion::current(),
        capabilities: AgentIdentity::CAP_COMPRESSION,
    };

    let message = Message {
        envelope: envelope(MessageType::Handshake, 1, 1703174400, false),
        payload: MessagePayload::Handshake(identity.clone()),
    };

    let frame = FrameCodec::encode(&message).unwrap();
    assert!(frame.len() > 4);

    let mut cursor = ByteReader::new(&frame);
    let decoded = FrameCodec::decode(&mut cursor).unwrap();

    assert_eq!(decoded.envelope.message_type, MessageType::Handshake);
    assert_eq!(decoded.envelope.message_id, id(1));
    match decoded.payload {
        MessagePayload::Handshake(decoded_identity) => {
            assert_eq!(decoded_identity.instance_id, identity.instance_id);
            assert_eq!(decoded_identity.os_type, identity.os_type);
        }
        _ => panic!("Expected Handshake payload"),
    }
}

#[test]
fn test_encode_decode_snapshot() {
    let snapshot = SnapshotPayload {
        window_start_secs: 1703174400,
        window_end_secs: 1703174410,
        total_cpu_percent: pct(25.5),
        memory_used_bytes: 8_000_000_000,
        memory_total_bytes: 16_000_000_000,
        processes: vec![
            ProcessSample {
                pid: 1234,
                name: "test-process".to_string(),
                cpu_percent: pct(15.2),
                memory_bytes: 100_000_000,
                memory_percent: pct(1.25),
                cmdline: Some("/usr/bin/test".to_string()),
            },
            ProcessSample {
                pid: 5678,
                name: "another-process".to_string(),
                cpu_percent: pct(10.3),
                memory_bytes: 50_000_000,
                memory_percent: pct(0.625),
                cmdline: None,
            },
        ],
        truncated: false,
    };

    let message = Message {
        envelope: envelope(MessageType::Snapshot, 42, 1703174410, false),
        payload: MessagePayload::Snapshot(snapshot.clone()),
    };

    let frame = FrameCodec::encode(&message).unwrap();
    let mut cursor = ByteReader::new(&frame);
    let decoded = FrameCodec::decode(&mut cursor).unwrap();

    assert_eq!(decoded.envelope.message_type, MessageType::Snapshot);
    match decoded.payload {
        MessagePayload::Snapshot(decoded_snapshot) => {
            assert_eq!(decoded_snapshot.window_start_secs, snapshot.window_start_secs);
            assert_eq!(decoded_snapshot.processes.len(), 2);
            assert_eq!(decoded_snapshot.processes[0].pid, 1234);
            assert_eq!(decoded_snapshot.truncated, false);
        }
        _ => panic!("Expected Snapshot payload"),
    }
}

#[test]
fn test_encode_decode_compressed() {
    let snapshot = SnapshotPayload {
        window_start_secs: 1703174400,
        window_end_secs: 1703174410,
        total_cpu_percent: pct(50.0),
        memory_used_bytes: 16_000_000_000,
        memory_total_bytes: 32_000_000_000,
        processes: (0..100)
            .map(|i| ProcessSample {
                pid: 1000 + i,
                name: format!("process-{}", i),
                cpu_percent: pct(0.5),
                memory_bytes: 10_000_000,
                memory_percent: pct(0.03),
                cmdline: Some(format!("/usr/bin/app-{}", i)),
            })
            .collect(),
        truncated: false,
    };

    let message = Message {
        envelope: envelope(MessageType::Snapshot, 100, 1703174410, true),
        payload: MessagePayload::Snapshot(snapshot.clone()),
    };

    let frame = FrameCodec::encode(&message).unwrap();

    let uncompressed_message = Message {
        envelope: Envelope { compressed: false, ..message.envelope.clone() },
        ..message.clone()
    };
    let uncompressed_frame = FrameCodec::encode(&uncompressed_message).unwrap();
    assert!(frame.len() < uncompressed_frame.len(), "Compression should reduce size");

    let mut cursor = ByteReader::new(&frame);
    let decoded = FrameCodec::decode(&mut cursor).unwrap();

    assert_eq!(decoded.envelope.compressed, true);
    match decoded.payload {
        MessagePayload::Snapshot(decoded_snapshot) => {
            assert_eq!(decoded_snapshot.processes.len(), 100);
            assert_eq!(decoded_snapshot.processes[0].pid, 1000);
        }
        _ => panic!("Expected Snapshot payload"),
    }
}

#[test]
fn test_backpressure_signal() {
    let message = Message {
        envelope: envelope(MessageType::Backpressure, 200, 1703174420, false),
        payload: MessagePayload::Backpressure(BackpressureSignal {
            throttle_delay_ms: 30,
            reason: Some("collector is saturated".to_string()),
        }),
    };

    let frame = FrameCodec::encode(&message).unwrap();
    let mut cursor = ByteReader::new(&frame);
    let decoded = FrameCodec::decode(&mut cursor).unwrap();

    match decoded.payload {
        MessagePayload::Backpressure(signal) => {
            assert_eq!(signal.throttle_delay_ms, 30);
            assert_eq!(signal.reason, Some("collector is saturated".to_string()));
        }
        _ => panic!("Expected Backpressure payload"),
    }
}

#[test]
fn test_message_ack() {
    let message = Message {
        envelope: envelope(MessageType::Ack, 300, 1703174430, false),
        payload: MessagePayload::Ack(MessageAck {
            message_id: id(42),
            success: false,
            error_code: Some(1001),
        }),
    };

    let frame = FrameCodec::encode(&message).unwrap();
    let mut cursor = ByteReader::new(&frame);
    let decoded = FrameCodec::decode(&mut cursor).unwrap();

    match decoded.payload {
        MessagePayload::Ack(ack) => {
            assert_eq!(ack.message_id, id(42));
            assert_eq!(ack.success, false);
            assert_eq!(ack.error_code, Some(1001));
        }
        _ => panic!("Expected Ack payload"),
    }
}

#[test]
fn test_frame_size_validation() {
    let large_snapshot = SnapshotPayload {
        window_start_secs: 1703174400,
        window_end_secs: 1703174410,
        total_cpu_percent: pct(100.0),
        memory_used_bytes: 32_000_000_000,
        memory_total_bytes: 64_000_000_000,
        processes: (0..10000)
            .map(|i| ProcessSample {
                pid: i,
                name: format!("very-long-process-name-{}", i),
                cpu_percent: pct(1.0),
                memory_bytes: 1_000_000,
                memory_percent: pct(0.01),
                cmdline: Some(format!(
                    "/very/long/command/line/path/number/{}/with/many/args",
                    i
                )),
            })
            .collect(),
        truncated: false,
    };

    let message = Message {
        envelope: envelope(MessageType::Snapshot, 999, 1703174440, false),
        payload: MessagePayload::Snapshot(large_snapshot),
    };

    let result = FrameCodec::encode(&message);
    assert!(result.is_err());
    match result.unwrap_err() {
        ProtocolError::FrameTooLarge(size, max) => {
            assert!(size > max);
        }
        _ => panic!("Expected FrameTooLarge error"),
    }
}

#[test]
fn test_cross_language_serialization_snapshot() {
    // The encoded bytes are what an implementation in another language reads;
    // here they go through an in-memory writer in place of a shared file.
    let snapshot = SnapshotPayload {
        window_start_secs: 1703174400,
        window_end_secs: 1703174410,
        total_cpu_percent: pct(75.5),
        memory_used_bytes: 16_000_000_000,
        memory_total_bytes: 32_000_000_000,
        processes: vec![
            ProcessSample {
                pid: 1001,
                name: "chrome".to_string(),
                cpu_percent: pct(45.0),
                memory_bytes: 2_000_000_000,
                memory_percent: pct(6.25),
                cmdline: Some(
                    "/usr/bin/chrome --user-data-dir=/home/user/.config/google-chrome".to_string(),
                ),
            },
            ProcessSample {
                pid: 1002,
                name: "firefox".to_string(),
                cpu_percent: pct(20.0),
                memory_bytes: 1_500_000_000,
                memory_percent: pct(4.6875),
                cmdline: Some("/usr/bin/firefox".to_string()),
            },
            ProcessSample {
                pid: 1003,
                name: "code".to_string(),
                cpu_percent: pct(10.5),
                memory_bytes: 800_000_000,
                memory_percent: pct(2.5),
                cmdline: None,
            },
        ],
        truncated: false,
    };

    let message = Message {
        envelope: envelope(MessageType::Snapshot, 42, 1703174405, false),
        payload: MessagePayload::Snapshot(snapshot),
    };

    let encoded = FrameCodec::encode(&message).expect("Failed to encode");

    let mut cursor = ByteReader::new(&encoded);
    let decoded = FrameCodec::decode(&mut cursor).expect("Failed to decode");
    assert_eq!(decoded.envelope.message_id, id(42));
    assert_eq!(decoded.envelope.message_type, MessageType::Snapshot);

    let mut shared: Vec<u8> = Vec::new();
    std::io::Write::write_all(&mut shared, &encoded).expect("Failed to write test data");
    let written = shared.clone();
    assert_eq!(written, encoded, "Written data should match encoded data");
}
