//! A fixed demonstration message and the pieces of the tool that writes it
//! out: argument parsing, the names of enumerated values, the hexadecimal
//! form of a message identifier, and the names tried when an output file
//! already exists.

use vstd::prelude::*;
use vstd::string::StringExecFns;
use vstd::utf8::encode_utf8;
use crate::protocol::codec::{bytes_outcome_is, encoded, FrameCodec};
use crate::protocol::error::ProtocolError;
use crate::protocol::kinds::{MessageType, OsType};
use crate::protocol::layout::{envelope_fits, payload_fits};
use crate::protocol::message::{
    Envelope, EnvelopeView, Message, MessagePayload, MessagePayloadView, MessageView, Percent,
    ProcessSample, ProcessSampleView, SnapshotPayload, SnapshotPayloadView,
};
use crate::protocol::version::ProtocolVersion;

verus! {

/// Where the demonstration frames go when no path is given.
pub const DEFAULT_DEMO_PATH: &'static str = "tmp/demo-protocol.bin";

/// The most frames that one run writes.
pub const MAX_FRAME_COUNT: u32 = 1000;

/// The exit status for a wrong command line.
pub const EXIT_USAGE: i32 = 2;

/// The last index that is tried when an output file already exists.
pub const MAX_STAMP_INDEX: u32 = 999;

// ---------------------------------------------------------------------------
// The demonstration message
// ---------------------------------------------------------------------------

/// The identifier of the demonstration message: the bytes 0 to 15.
pub open spec fn demo_message_id_bytes() -> Seq<u8> {
    seq![0u8, 1u8, 2u8, 3u8, 4u8, 5u8, 6u8, 7u8, 8u8, 9u8, 10u8, 11u8, 12u8, 13u8, 14u8, 15u8]
}

/// The demonstration message for a platform, as a mathematical value.
pub open spec fn demo_message(platform: OsType) -> MessageView {
    MessageView {
        envelope: EnvelopeView {
            version: ProtocolVersion::spec_current(),
            message_type: MessageType::Snapshot,
            message_id: demo_message_id_bytes(),
            timestamp_utc_ms: 1703174410000,
            agent_id: "demo-agent-ž"@,
            platform,
            compressed: false,
        },
        payload: MessagePayloadView::Snapshot(
            SnapshotPayloadView {
                window_start_secs: 1703174400,
                window_end_secs: 1703174410,
                total_cpu_percent: Percent { bits: 0x4145_851f },
                memory_used_bytes: 1_500_000_000,
                memory_total_bytes: 8_000_000_000,
                processes: seq![
                    ProcessSampleView {
                        pid: 1234,
                        name: "demo-π"@,
                        cpu_percent: Percent { bits: 0x3f9d_f3b6 },
                        memory_bytes: 50_000_000,
                        memory_percent: Percent { bits: 0x3ea4_5a1d },
                        cmdline: Some("/usr/bin/demo --mode=π"@),
                    },
                    ProcessSampleView {
                        pid: 5678,
                        name: "worker"@,
                        cpu_percent: Percent { bits: 0x3f00_0000 },
                        memory_bytes: 75_000_000,
                        memory_percent: Percent { bits: 0x3de3_53f8 },
                        cmdline: None,
                    },
                ],
                truncated: false,
            },
        ),
    }
}

/// The identifier of the demonstration message.
pub fn demo_message_id() -> (id: [u8; 16])
    ensures
        id@ == demo_message_id_bytes(),
{
    let id: [u8; 16] = [0, 1, 2, 3, 4, 5, 6, 7, 8, 9, 10, 11, 12, 13, 14, 15];
    assert(id@ =~= demo_message_id_bytes());
    id
}

/// Builds the demonstration message: an uncompressed snapshot of two
/// processes, the same at every call. The percentages are the
/// single-precision patterns of 12.345, 1.234, 0.321, 0.5 and 0.111.
pub fn build_demo_message(platform: OsType) -> (m: Message)
    ensures
        m@ == demo_message(platform),
        m@.well_formed(),
{
    let envelope = Envelope {
        version: ProtocolVersion::current(),
        message_type: MessageType::Snapshot,
        message_id: demo_message_id(),
        timestamp_utc_ms: 1703174410000,
        agent_id: "demo-agent-ž".to_owned(),
        platform,
        compressed: false,
    };
    let mut processes: Vec<ProcessSample> = Vec::new();
    processes.push(
        ProcessSample {
            pid: 1234,
            name: "demo-π".to_owned(),
            cpu_percent: Percent { bits: 0x3f9d_f3b6 },
            memory_bytes: 50_000_000,
            memory_percent: Percent { bits: 0x3ea4_5a1d },
            cmdline: Some("/usr/bin/demo --mode=π".to_owned()),
        },
    );
    processes.push(
        ProcessSample {
            pid: 5678,
            name: "worker".to_owned(),
            cpu_percent: Percent { bits: 0x3f00_0000 },
            memory_bytes: 75_000_000,
            memory_percent: Percent { bits: 0x3de3_53f8 },
            cmdline: None,
        },
    );
    let payload = SnapshotPayload {
        window_start_secs: 1703174400,
        window_end_secs: 1703174410,
        total_cpu_percent: Percent { bits: 0x4145_851f },
        memory_used_bytes: 1_500_000_000,
        memory_total_bytes: 8_000_000_000,
        processes,
        truncated: false,
    };
    let m = Message { envelope, payload: MessagePayload::Snapshot(payload) };
    proof {
        let expected = demo_message(platform);
        assert(m@.payload->Snapshot_0.processes =~= expected.payload->Snapshot_0.processes);
    }
    m
}

/// The frame of a message, as [`FrameCodec::encode`] builds it.
pub fn encode_demo_frame_bytes(message: &Message) -> (r: Result<Vec<u8>, ProtocolError>)
    ensures
        bytes_outcome_is(r, encoded(message@)),
        r is Ok ==> envelope_fits(message@.envelope),
        payload_fits(message@.payload),
{
    FrameCodec::encode(message)
}

// ---------------------------------------------------------------------------
// Names for the console
// ---------------------------------------------------------------------------

/// The name of a message type.
pub open spec fn message_type_name(t: MessageType) -> Seq<char> {
    match t {
        MessageType::Handshake => "Handshake"@,
        MessageType::HandshakeAck => "HandshakeAck"@,
        MessageType::Heartbeat => "Heartbeat"@,
        MessageType::Snapshot => "Snapshot"@,
        MessageType::Ack => "Ack"@,
        MessageType::Backpressure => "Backpressure"@,
        MessageType::Error => "Error"@,
    }
}

/// The name of a message type, as the console shows it.
pub fn format_message_type(t: MessageType) -> (name: &'static str)
    ensures
        name@ == message_type_name(t),
{
    match t {
        MessageType::Handshake => "Handshake",
        MessageType::HandshakeAck => "HandshakeAck",
        MessageType::Heartbeat => "Heartbeat",
        MessageType::Snapshot => "Snapshot",
        MessageType::Ack => "Ack",
        MessageType::Backpressure => "Backpressure",
        MessageType::Error => "Error",
    }
}

/// The name of a platform.
pub open spec fn platform_name(p: OsType) -> Seq<char> {
    match p {
        OsType::Windows => "Windows"@,
        OsType::Linux => "Linux"@,
    }
}

/// The name of a platform, as the console shows it.
pub fn format_platform(p: OsType) -> (name: &'static str)
    ensures
        name@ == platform_name(p),
{
    match p {
        OsType::Windows => "Windows",
        OsType::Linux => "Linux",
    }
}

/// A flag in lower case, as the console shows it.
pub fn bool_to_lower(b: bool) -> (text: &'static str)
    ensures
        text@ == (if b {
            "true"@
        } else {
            "false"@
        }),
{
    if b {
        "true"
    } else {
        "false"
    }
}

/// The hexadecimal digit of a number below sixteen, in lower case.
pub open spec fn hex_digit(n: int) -> char {
    if n == 0 {
        '0'
    } else if n == 1 {
        '1'
    } else if n == 2 {
        '2'
    } else if n == 3 {
        '3'
    } else if n == 4 {
        '4'
    } else if n == 5 {
        '5'
    } else if n == 6 {
        '6'
    } else if n == 7 {
        '7'
    } else if n == 8 {
        '8'
    } else if n == 9 {
        '9'
    } else if n == 10 {
        'a'
    } else if n == 11 {
        'b'
    } else if n == 12 {
        'c'
    } else if n == 13 {
        'd'
    } else if n == 14 {
        'e'
    } else {
        'f'
    }
}

/// Bytes in hexadecimal: two lower-case digits for each byte, high digit first.
pub open spec fn hex_text(bytes: Seq<u8>) -> Seq<char> {
    Seq::new(
        2 * bytes.len(),
        |i: int|
            if i % 2 == 0 {
                hex_digit(bytes[i / 2] as int / 16)
            } else {
                hex_digit(bytes[i / 2] as int % 16)
            },
    )
}

/// The digit of a number below sixteen, as a one-letter text.
fn digit_text(n: u8) -> (text: &'static str)
    requires
        n < 16,
    ensures
        text@ == seq![hex_digit(n as int)],
{
    proof {
        reveal_strlit("0");
        reveal_strlit("1");
        reveal_strlit("2");
        reveal_strlit("3");
        reveal_strlit("4");
        reveal_strlit("5");
        reveal_strlit("6");
        reveal_strlit("7");
        reveal_strlit("8");
        reveal_strlit("9");
        reveal_strlit("a");
        reveal_strlit("b");
        reveal_strlit("c");
        reveal_strlit("d");
        reveal_strlit("e");
        reveal_strlit("f");
    }
    let text = if n == 0 {
        "0"
    } else if n == 1 {
        "1"
    } else if n == 2 {
        "2"
    } else if n == 3 {
        "3"
    } else if n == 4 {
        "4"
    } else if n == 5 {
        "5"
    } else if n == 6 {
        "6"
    } else if n == 7 {
        "7"
    } else if n == 8 {
        "8"
    } else if n == 9 {
        "9"
    } else if n == 10 {
        "a"
    } else if n == 11 {
        "b"
    } else if n == 12 {
        "c"
    } else if n == 13 {
        "d"
    } else if n == 14 {
        "e"
    } else {
        "f"
    };
    assert(text@ =~= seq![hex_digit(n as int)]);
    text
}

/// A message identifier in hexadecimal: 32 lower-case digits.
pub fn format_message_id_hex(bytes: &[u8; 16]) -> (text: String)
    ensures
        text@ == hex_text(bytes@),
        text@.len() == 32,
{
    let mut text = String::new();
    let mut i: usize = 0;
    while i < 16
        invariant
            i <= 16,
            bytes@.len() == 16,
            text@ == hex_text(bytes@.take(i as int)),
        decreases 16 - i,
    {
        let ghost before = text@;
        let b = bytes[i];
        text.append(digit_text(b / 16));
        text.append(digit_text(b % 16));
        proof {
            let done = bytes@.take(i as int);
            let more = bytes@.take(i + 1);
            assert(text@ =~= hex_text(more)) by {
                assert(text@.len() == 2 * i + 2);
                assert forall|k: int| 0 <= k < 2 * i + 2 implies text@[k] == hex_text(more)[k] by {
                    if k < 2 * i {
                        assert(text@[k] == before[k]);
                        assert(done[k / 2] == more[k / 2]);
                    } else if k == 2 * i {
                        assert(more[k / 2] == b);
                    } else {
                        assert(more[k / 2] == b);
                    }
                }
            }
        }
        i = i + 1;
    }
    assert(bytes@.take(16) =~= bytes@);
    text
}

// ---------------------------------------------------------------------------
// The command line
// ---------------------------------------------------------------------------

/// What the command line asks for.
#[derive(Debug, Clone, PartialEq, Eq)]
pub struct ProducerArgs {
    /// Where the frames are written.
    pub out_path: String,
    /// How many frames are written, 1 to [`MAX_FRAME_COUNT`].
    pub count: u32,
}

/// The mathematical value of [`ProducerArgs`].
pub ghost struct ProducerArgsView {
    pub out_path: Seq<char>,
    pub count: u32,
}

impl View for ProducerArgs {
    type V = ProducerArgsView;

    open spec fn view(&self) -> ProducerArgsView {
        ProducerArgsView { out_path: self.out_path@, count: self.count }
    }
}

/// Why a command line was not taken.
#[derive(Debug, Clone, PartialEq, Eq)]
pub enum ArgsError {
    /// `--out` was the last word.
    MissingOutValue,
    /// `--count` was the last word.
    MissingCountValue,
    /// The word after `--count` is not a number that fits 32 bits.
    InvalidCount(String),
    /// `-h` or `--help` was given.
    Help,
    /// A word that is no option.
    UnknownArgument(String),
    /// The count is outside 1 to [`MAX_FRAME_COUNT`].
    CountOutOfRange(u32),
}

/// The mathematical value of an [`ArgsError`].
pub ghost enum ArgsErrorView {
    MissingOutValue,
    MissingCountValue,
    InvalidCount(Seq<char>),
    Help,
    UnknownArgument(Seq<char>),
    CountOutOfRange(u32),
}

impl View for ArgsError {
    type V = ArgsErrorView;

    open spec fn view(&self) -> ArgsErrorView {
        match *self {
            ArgsError::MissingOutValue => ArgsErrorView::MissingOutValue,
            ArgsError::MissingCountValue => ArgsErrorView::MissingCountValue,
            ArgsError::InvalidCount(word) => ArgsErrorView::InvalidCount(word@),
            ArgsError::Help => ArgsErrorView::Help,
            ArgsError::UnknownArgument(word) => ArgsErrorView::UnknownArgument(word@),
            ArgsError::CountOutOfRange(count) => ArgsErrorView::CountOutOfRange(count),
        }
    }
}

/// Whether a byte is a decimal digit in ASCII.
pub open spec fn is_digit(b: u8) -> bool {
    0x30 <= b <= 0x39
}

/// Whether every byte is a decimal digit.
pub open spec fn all_digits(bytes: Seq<u8>) -> bool {
    forall|i: int| 0 <= i < bytes.len() ==> is_digit(#[trigger] bytes[i])
}

/// The number that decimal digits spell.
pub open spec fn digits_value(bytes: Seq<u8>) -> int
    decreases bytes.len(),
{
    if bytes.len() == 0 {
        0
    } else {
        10 * digits_value(bytes.drop_last()) + (bytes.last() - 0x30)
    }
}

/// The 32-bit number that a text spells in decimal, given by its UTF-8
/// bytes: digits, at least one, after at most one plus sign, and a value
/// that fits. Anything else spells no number.
pub open spec fn decimal_u32(bytes: Seq<u8>) -> Option<u32> {
    let digits = if bytes.len() > 0 && bytes[0] == 0x2b {
        bytes.skip(1)
    } else {
        bytes
    };
    if digits.len() == 0 || !all_digits(digits) || digits_value(digits) > u32::MAX {
        None
    } else {
        Some(digits_value(digits) as u32)
    }
}

/// The digits read so far never spell more than all of them.
proof fn lemma_digits_value_grows(bytes: Seq<u8>, k: int)
    requires
        all_digits(bytes),
        0 <= k <= bytes.len(),
    ensures
        0 <= digits_value(bytes.take(k)) <= digits_value(bytes),
    decreases bytes.len(),
{
    if bytes.len() == 0 {
        assert(bytes.take(k) =~= bytes);
    } else if k == bytes.len() {
        assert(bytes.take(k) =~= bytes);
        assert(all_digits(bytes.drop_last()));
        lemma_digits_value_grows(bytes.drop_last(), k - 1);
    } else {
        assert(all_digits(bytes.drop_last()));
        assert(bytes.drop_last().take(k) =~= bytes.take(k));
        lemma_digits_value_grows(bytes.drop_last(), k);
    }
}

/// Reads a count from a word of the command line.
pub fn parse_count(text: &str) -> (r: Option<u32>)
    ensures
        r == decimal_u32(encode_utf8(text@)),
{
    let bytes = text.as_bytes();
    let start: usize = if bytes.len() > 0 && bytes[0] == 0x2b {
        1
    } else {
        0
    };
    if start == bytes.len() {
        return None;
    }
    let ghost digits = bytes@.skip(start as int);
    let mut acc: u64 = 0;
    let mut i: usize = start;
    assert(digits.take(0) =~= Seq::<u8>::empty());
    assert(bytes@.skip(0) =~= bytes@);
    while i < bytes.len()
        invariant
            start <= i <= bytes@.len(),
            bytes@ == encode_utf8(text@),
            digits == bytes@.skip(start as int),
            all_digits(digits.take(i - start)),
            acc == digits_value(digits.take(i - start)),
            acc <= u32::MAX,
            decimal_u32(bytes@) == (if digits.len() == 0 || !all_digits(digits) || digits_value(
                digits,
            ) > u32::MAX {
                None
            } else {
                Some(digits_value(digits) as u32)
            }),
        decreases bytes@.len() - i,
    {
        let b = bytes[i];
        if b < 0x30 || b > 0x39 {
            assert(!is_digit(digits[i - start]));
            return None;
        }
        let next: u64 = acc * 10 + (b - 0x30) as u64;
        proof {
            let read = digits.take(i - start + 1);
            assert(read.drop_last() =~= digits.take(i - start));
            assert(read.last() == b);
            assert(next == digits_value(read));
            assert(all_digits(read)) by {
                assert forall|j: int| 0 <= j < read.len() implies is_digit(#[trigger] read[j]) by {
                    if j < i - start {
                        assert(read[j] == digits.take(i - start)[j]);
                    }
                }
            }
            if all_digits(digits) {
                lemma_digits_value_grows(digits, i - start + 1);
            }
        }
        if next > u32::MAX as u64 {
            return None;
        }
        acc = next;
        i = i + 1;
    }
    assert(digits.take(digits.len() as int) =~= digits);
    Some(acc as u32)
}

/// The views of the words of a command line.
pub open spec fn word_views(words: Seq<String>) -> Seq<Seq<char>> {
    Seq::new(words.len(), |i: int| words[i]@)
}

/// What the words from `at` on ask for, given what the words before asked for.
pub open spec fn options_from(words: Seq<Seq<char>>, at: int, out_path: Seq<char>, count: u32)
    -> Result<ProducerArgsView, ArgsErrorView>
    decreases words.len() - at,
{
    if at < 0 || at >= words.len() {
        Ok(ProducerArgsView { out_path, count })
    } else if words[at] == "--out"@ {
        if at + 1 >= words.len() {
            Err(ArgsErrorView::MissingOutValue)
        } else {
            options_from(words, at + 2, words[at + 1], count)
        }
    } else if words[at] == "--count"@ {
        if at + 1 >= words.len() {
            Err(ArgsErrorView::MissingCountValue)
        } else {
            match decimal_u32(encode_utf8(words[at + 1])) {
                Some(n) => options_from(words, at + 2, out_path, n),
                None => Err(ArgsErrorView::InvalidCount(words[at + 1])),
            }
        }
    } else if words[at] == "-h"@ || words[at] == "--help"@ {
        Err(ArgsErrorView::Help)
    } else {
        Err(ArgsErrorView::UnknownArgument(words[at]))
    }
}

/// What a command line asks for: the options in their order, a later one
/// replacing an earlier one, then the check of the count.
pub open spec fn parsed_args(words: Seq<Seq<char>>) -> Result<ProducerArgsView, ArgsErrorView> {
    match options_from(words, 0, DEFAULT_DEMO_PATH@, 1) {
        Err(e) => Err(e),
        Ok(args) => if 1 <= args.count <= MAX_FRAME_COUNT {
            Ok(args)
        } else {
            Err(ArgsErrorView::CountOutOfRange(args.count))
        },
    }
}

fn word_is(word: &String, text: &str) -> (same: bool)
    ensures
        same == (word@ == text@),
{
    let other = text.to_owned();
    *word == other
}

impl ProducerArgs {
    /// Reads the words of a command line, the program's name left out.
    pub fn parse(words: &Vec<String>) -> (r: Result<ProducerArgs, ArgsError>)
        ensures
            match parsed_args(word_views(words@)) {
                Ok(args) => r matches Ok(got) && got@ == args,
                Err(e) => r matches Err(failure) && failure@ == e,
            },
    {
        let ghost views = word_views(words@);
        let mut out_path: String = DEFAULT_DEMO_PATH.to_owned();
        let mut count: u32 = 1;
        let mut at: usize = 0;
        while at < words.len()
            invariant
                at <= words@.len(),
                views == word_views(words@),
                options_from(views, 0, DEFAULT_DEMO_PATH@, 1) == options_from(
                    views,
                    at as int,
                    out_path@,
                    count,
                ),
            decreases words@.len() - at,
        {
            let word = &words[at];
            assert(views[at as int] == word@);
            if word_is(word, "--out") {
                if at + 1 >= words.len() {
                    return Err(ArgsError::MissingOutValue);
                }
                assert(views[at + 1] == words@[at + 1]@);
                out_path = words[at + 1].clone();
                at = at + 2;
            } else if word_is(word, "--count") {
                if at + 1 >= words.len() {
                    return Err(ArgsError::MissingCountValue);
                }
                assert(views[at + 1] == words@[at + 1]@);
                match parse_count(words[at + 1].as_str()) {
                    Some(n) => {
                        count = n;
                    },
                    None => {
                        return Err(ArgsError::InvalidCount(words[at + 1].clone()));
                    },
                }
                at = at + 2;
            } else if word_is(word, "-h") || word_is(word, "--help") {
                return Err(ArgsError::Help);
            } else {
                return Err(ArgsError::UnknownArgument(word.clone()));
            }
        }
        if 1 <= count && count <= MAX_FRAME_COUNT {
            Ok(ProducerArgs { out_path, count })
        } else {
            Err(ArgsError::CountOutOfRange(count))
        }
    }

    /// The text that explains the command line.
    pub fn usage() -> (text: String)
        ensures
            text@
                == "demo_protocol_producer --out <path> --count <n>\n\nDefaults:\n  --out   tmp/demo-protocol.bin\n  --count 1\n\nConstraints:\n  1 <= --count <= 1000\n"@,
    {
        "demo_protocol_producer --out <path> --count <n>\n\nDefaults:\n  --out   tmp/demo-protocol.bin\n  --count 1\n\nConstraints:\n  1 <= --count <= 1000\n".to_owned()
    }
}

// ---------------------------------------------------------------------------
// Names for an output file that already exists
// ---------------------------------------------------------------------------

/// The view of an optional text.
pub open spec fn opt_text_view(text: Option<&str>) -> Option<Seq<char>> {
    match text {
        Some(t) => Some(t@),
        None => None,
    }
}

/// The file name with a stamp: the stem, a hyphen, the index in three
/// digits, and the extension after a dot where there is one.
pub open spec fn stamped_name(stem: Seq<char>, ext: Option<Seq<char>>, index: int) -> Seq<char> {
    let base = stem + seq!['-', hex_digit(index / 100), hex_digit(index / 10 % 10), hex_digit(
        index % 10,
    )];
    match ext {
        Some(e) => if e.len() > 0 {
            base + seq!['.'] + e
        } else {
            base
        },
        None => base,
    }
}

/// The next name to try after `tried` stamped names were found taken: the
/// name with the stamp `tried + 1`, or none when [`MAX_STAMP_INDEX`] names
/// have been tried.
pub fn stamp_candidate(stem: &str, ext: Option<&str>, tried: u32) -> (r: Option<String>)
    ensures
        tried < MAX_STAMP_INDEX ==> (r matches Some(name) && name@ == stamped_name(
            stem@,
            opt_text_view(ext),
            tried + 1,
        )),
        tried >= MAX_STAMP_INDEX ==> r is None,
{
    if tried >= MAX_STAMP_INDEX {
        return None;
    }
    let index: u32 = tried + 1;
    proof {
        reveal_strlit("-");
        reveal_strlit(".");
    }
    let mut name = String::new();
    name.append(stem);
    name.append("-");
    name.append(digit_text((index / 100) as u8));
    name.append(digit_text((index / 10 % 10) as u8));
    name.append(digit_text((index % 10) as u8));
    let ghost base = name@;
    assert(base =~= stem@ + seq![
        '-',
        hex_digit(index as int / 100),
        hex_digit(index as int / 10 % 10),
        hex_digit(index as int % 10),
    ]);
    match ext {
        Some(e) => {
            if !e.is_empty() {
                name.append(".");
                name.append(e);
                assert(name@ =~= base + seq!['.'] + e@);
            }
        },
        None => {},
    }
    Some(name)
}

} // verus!
