//! Tests of the demonstration message and of the pieces of the tool around it.

use agent::demo_protocol::{
    bool_to_lower, build_demo_message, demo_message_id, encode_demo_frame_bytes,
    format_message_id_hex, format_message_type, format_platform, parse_count, stamp_candidate,
    ArgsError, ProducerArgs, DEFAULT_DEMO_PATH, EXIT_USAGE, MAX_FRAME_COUNT, MAX_STAMP_INDEX,
};
use agent::protocol::reader::ByteReader;
use agent::protocol::{FrameCodec, MessagePayload, MessageType, OsType};

#[test]
fn demo_message_is_deterministic() {
    let message_a = build_demo_message(OsType::Linux);
    let message_b = build_demo_message(OsType::Linux);

    assert_eq!(message_a.envelope.version.major, 1);
    assert_eq!(message_a.envelope.version.minor, 0);
    assert_eq!(message_a.envelope.compressed, false);
    assert_eq!(message_a.envelope.agent_id, "demo-agent-ž");

    assert_eq!(message_a, message_b);

    let frame_a = encode_demo_frame_bytes(&message_a).expect("encode A");
    let frame_b = encode_demo_frame_bytes(&message_b).expect("encode B");

    assert_eq!(frame_a, frame_b);
}

#[test]
fn demo_frame_round_trips_through_framecodec() {
    let message = build_demo_message(OsType::Linux);
    let frame = encode_demo_frame_bytes(&message).expect("encode");

    let mut cursor = ByteReader::new(&frame);
    let decoded = FrameCodec::decode(&mut cursor).expect("decode");

    assert_eq!(decoded.envelope.version, message.envelope.version);
    assert_eq!(decoded.envelope.message_type, message.envelope.message_type);
    assert_eq!(decoded.envelope.message_id, message.envelope.message_id);
    assert_eq!(decoded.envelope.timestamp_utc_ms, message.envelope.timestamp_utc_ms);
    assert_eq!(decoded.envelope.agent_id, message.envelope.agent_id);
    assert_eq!(decoded.envelope.platform, message.envelope.platform);
    assert_eq!(decoded.envelope.compressed, message.envelope.compressed);

    let MessagePayload::Snapshot(snapshot) = decoded.payload else {
        panic!("expected Snapshot payload");
    };

    assert_eq!(snapshot.processes.len(), 2);
    assert_eq!(snapshot.processes[0].pid, 1234);
    assert_eq!(snapshot.processes[1].cmdline, None);
    assert_eq!(snapshot.truncated, false);
}

#[test]
fn demo_message_holds_the_fixed_values() {
    let message = build_demo_message(OsType::Windows);
    assert!(message.is_well_formed());
    assert_eq!(message.envelope.platform, OsType::Windows);
    assert_eq!(message.envelope.message_type, MessageType::Snapshot);
    assert_eq!(message.envelope.message_id, demo_message_id());
    assert_eq!(demo_message_id(), [0, 1, 2, 3, 4, 5, 6, 7, 8, 9, 10, 11, 12, 13, 14, 15]);
    assert_eq!(message.envelope.timestamp_utc_ms, 1703174410000);
    let MessagePayload::Snapshot(snapshot) = &message.payload else {
        panic!("expected Snapshot payload");
    };
    assert_eq!(snapshot.window_start_secs, 1703174400);
    assert_eq!(snapshot.window_end_secs, 1703174410);
    assert_eq!(f32::from_bits(snapshot.total_cpu_percent.bits), 12.345_f32);
    assert_eq!(snapshot.memory_used_bytes, 1_500_000_000);
    assert_eq!(snapshot.memory_total_bytes, 8_000_000_000);
    assert_eq!(snapshot.processes[0].name, "demo-π");
    assert_eq!(f32::from_bits(snapshot.processes[0].cpu_percent.bits), 1.234_f32);
    assert_eq!(f32::from_bits(snapshot.processes[0].memory_percent.bits), 0.321_f32);
    assert_eq!(snapshot.processes[0].memory_bytes, 50_000_000);
    assert_eq!(snapshot.processes[0].cmdline.as_deref(), Some("/usr/bin/demo --mode=π"));
    assert_eq!(snapshot.processes[1].pid, 5678);
    assert_eq!(snapshot.processes[1].name, "worker");
    assert_eq!(f32::from_bits(snapshot.processes[1].cpu_percent.bits), 0.500_f32);
    assert_eq!(f32::from_bits(snapshot.processes[1].memory_percent.bits), 0.111_f32);
    assert_eq!(snapshot.processes[1].memory_bytes, 75_000_000);
    assert_eq!(encode_demo_frame_bytes(&message), FrameCodec::encode(&message));
}

#[test]
fn names_for_the_console() {
    assert_eq!(format_message_type(MessageType::Handshake), "Handshake");
    assert_eq!(format_message_type(MessageType::HandshakeAck), "HandshakeAck");
    assert_eq!(format_message_type(MessageType::Heartbeat), "Heartbeat");
    assert_eq!(format_message_type(MessageType::Snapshot), "Snapshot");
    assert_eq!(format_message_type(MessageType::Ack), "Ack");
    assert_eq!(format_message_type(MessageType::Backpressure), "Backpressure");
    assert_eq!(format_message_type(MessageType::Error), "Error");
    assert_eq!(format_platform(OsType::Windows), "Windows");
    assert_eq!(format_platform(OsType::Linux), "Linux");
    assert_eq!(bool_to_lower(true), "true");
    assert_eq!(bool_to_lower(false), "false");
}

#[test]
fn message_id_in_hexadecimal() {
    assert_eq!(format_message_id_hex(&demo_message_id()), "000102030405060708090a0b0c0d0e0f");
    assert_eq!(format_message_id_hex(&[0xff; 16]), "f".repeat(32));
    assert_eq!(
        format_message_id_hex(&[
            0x10, 0x2a, 0x3b, 0x4c, 0x5d, 0x6e, 0x7f, 0x80, 0x91, 0xa2, 0xb3, 0xc4, 0xd5, 0xe6,
            0xf7, 0x09
        ]),
        "102a3b4c5d6e7f8091a2b3c4d5e6f709"
    );
}

fn words(list: &[&str]) -> Vec<String> {
    list.iter().map(|w| w.to_string()).collect()
}

#[test]
fn command_line_defaults() {
    assert_eq!(DEFAULT_DEMO_PATH, "tmp/demo-protocol.bin");
    assert_eq!(MAX_FRAME_COUNT, 1000);
    assert_eq!(EXIT_USAGE, 2);
    assert_eq!(
        ProducerArgs::parse(&words(&[])),
        Ok(ProducerArgs { out_path: "tmp/demo-protocol.bin".to_string(), count: 1 })
    );
}

#[test]
fn command_line_options() {
    assert_eq!(
        ProducerArgs::parse(&words(&["--out", "x.bin", "--count", "7"])),
        Ok(ProducerArgs { out_path: "x.bin".to_string(), count: 7 })
    );
    assert_eq!(
        ProducerArgs::parse(&words(&["--count", "1000", "--out", "--count"])),
        Ok(ProducerArgs { out_path: "--count".to_string(), count: 1000 })
    );
    assert_eq!(
        ProducerArgs::parse(&words(&["--count", "0", "--count", "+5", "--out", "a", "--out", "b"])),
        Ok(ProducerArgs { out_path: "b".to_string(), count: 5 })
    );
}

#[test]
fn command_line_failures() {
    assert_eq!(ProducerArgs::parse(&words(&["--out"])), Err(ArgsError::MissingOutValue));
    assert_eq!(
        ProducerArgs::parse(&words(&["--out", "p", "--count"])),
        Err(ArgsError::MissingCountValue)
    );
    assert_eq!(
        ProducerArgs::parse(&words(&["--count", "many"])),
        Err(ArgsError::InvalidCount("many".to_string()))
    );
    assert_eq!(
        ProducerArgs::parse(&words(&["--count", "-1"])),
        Err(ArgsError::InvalidCount("-1".to_string()))
    );
    assert_eq!(ProducerArgs::parse(&words(&["-h"])), Err(ArgsError::Help));
    assert_eq!(ProducerArgs::parse(&words(&["--out", "p", "--help", "zzz"])), Err(ArgsError::Help));
    assert_eq!(
        ProducerArgs::parse(&words(&["--count", "0", "stray"])),
        Err(ArgsError::UnknownArgument("stray".to_string()))
    );
    assert_eq!(
        ProducerArgs::parse(&words(&["--count", "0"])),
        Err(ArgsError::CountOutOfRange(0))
    );
    assert_eq!(
        ProducerArgs::parse(&words(&["--count", "1001"])),
        Err(ArgsError::CountOutOfRange(1001))
    );
}

#[test]
fn counts_are_read_as_the_standard_library_reads_them() {
    let samples = [
        "", "+", "-", "0", "1", "+1", "-0", "007", "42", "4294967295", "4294967296",
        "04294967295", "99999999999999999999", "1 ", " 1", "1_000", "0x10", "12a", "+-1", "++1",
        "１２", "1.0", "1000", "+0000000000000000000001",
    ];
    for sample in samples {
        assert_eq!(parse_count(sample), sample.parse::<u32>().ok(), "for {:?}", sample);
    }
    assert_eq!(parse_count("4294967295"), Some(u32::MAX));
    assert_eq!(parse_count("4294967296"), None);
}

#[test]
fn usage_text() {
    assert_eq!(
        ProducerArgs::usage(),
        format!(
            "demo_protocol_producer --out <path> --count <n>\n\nDefaults:\n  --out   {}\n  --count 1\n\nConstraints:\n  1 <= --count <= {}\n",
            DEFAULT_DEMO_PATH, MAX_FRAME_COUNT
        )
    );
}

#[test]
fn stamped_names() {
    assert_eq!(MAX_STAMP_INDEX, 999);
    assert_eq!(
        stamp_candidate("demo-protocol", Some("bin"), 0),
        Some("demo-protocol-001.bin".to_string())
    );
    assert_eq!(stamp_candidate("demo", Some("bin"), 41), Some("demo-042.bin".to_string()));
    assert_eq!(stamp_candidate("demo", None, 122), Some("demo-123".to_string()));
    assert_eq!(stamp_candidate("demo", Some(""), 9), Some("demo-010".to_string()));
    assert_eq!(stamp_candidate("π", Some("ž"), 998), Some("π-999.ž".to_string()));
    assert_eq!(stamp_candidate("demo", Some("bin"), 999), None);
    assert_eq!(stamp_candidate("demo", Some("bin"), u32::MAX), None);
    for tried in 0..999u32 {
        assert_eq!(
            stamp_candidate("s", Some("e"), tried),
            Some(format!("s-{:03}.e", tried + 1))
        );
    }
}
