//! The failures that the codec reports.

use vstd::prelude::*;

verus! {

/// What went wrong with one frame. Every failure is final for that frame:
/// the codec never retries and never substitutes a default value.
#[derive(Debug, Clone, PartialEq, Eq)]
pub enum ProtocolError {
    /// A discriminant byte that names no message type (or no platform); the byte is carried.
    InvalidMessageType(u8),
    /// The peer speaks a version that this side cannot understand.
    IncompatibleVersion,
    /// A frame body larger than the limit: the observed size, then the limit.
    FrameTooLarge(usize, usize),
    /// The byte stream ended, or failed, before a whole frame was read.
    Io(String),
    /// The body does not follow the wire layout.
    Serialization(String),
    /// The compressor or the decompressor rejected the payload.
    Compression(String),
}

/// The mathematical value of a [`ProtocolError`]: texts are sequences of characters.
pub ghost enum ProtocolErrorView {
    InvalidMessageType(u8),
    IncompatibleVersion,
    FrameTooLarge(usize, usize),
    Io(Seq<char>),
    Serialization(Seq<char>),
    Compression(Seq<char>),
}

impl View for ProtocolError {
    type V = ProtocolErrorView;

    open spec fn view(&self) -> ProtocolErrorView {
        match *self {
            ProtocolError::InvalidMessageType(b) => ProtocolErrorView::InvalidMessageType(b),
            ProtocolError::IncompatibleVersion => ProtocolErrorView::IncompatibleVersion,
            ProtocolError::FrameTooLarge(size, max) => ProtocolErrorView::FrameTooLarge(size, max),
            ProtocolError::Io(text) => ProtocolErrorView::Io(text@),
            ProtocolError::Serialization(text) => ProtocolErrorView::Serialization(text@),
            ProtocolError::Compression(text) => ProtocolErrorView::Compression(text@),
        }
    }
}

/// The text carried when a stream ends before a whole frame was read.
pub open spec fn short_read_text() -> Seq<char> {
    "failed to fill whole buffer"@
}

/// The text carried when a frame body ends in the middle of a field.
pub open spec fn truncated_text() -> Seq<char> {
    "unexpected end of frame body"@
}

/// The text carried when a string field does not hold UTF-8.
pub open spec fn invalid_utf8_text() -> Seq<char> {
    "string field is not valid UTF-8"@
}

impl ProtocolError {
    /// The failure of a stream that ended before a whole frame was read.
    pub fn short_read() -> (e: ProtocolError)
        ensures
            e@ == ProtocolErrorView::Io(short_read_text()),
    {
        ProtocolError::Io("failed to fill whole buffer".to_owned())
    }

    /// The failure of a frame body that ends in the middle of a field.
    pub fn truncated() -> (e: ProtocolError)
        ensures
            e@ == ProtocolErrorView::Serialization(truncated_text()),
    {
        ProtocolError::Serialization("unexpected end of frame body".to_owned())
    }

    /// The failure of a string field whose bytes are not UTF-8.
    pub fn invalid_utf8() -> (e: ProtocolError)
        ensures
            e@ == ProtocolErrorView::Serialization(invalid_utf8_text()),
    {
        ProtocolError::Serialization("string field is not valid UTF-8".to_owned())
    }
}

} // verus!
