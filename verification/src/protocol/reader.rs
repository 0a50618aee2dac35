//! Reading single fields from a byte buffer, in the wire layout.
//!
//! A [`ByteReader`] is a position in a borrowed buffer. Every read either
//! yields a value and moves past its bytes, or fails and leaves the reader
//! where it was. What a read yields is given by the parser of the same field
//! in [`crate::protocol::wire`], applied to the bytes not yet read.

use vstd::prelude::*;
use vstd::slice::slice_to_vec;
use vstd::utf8::{encode_utf8, encode_utf8_decode_utf8, valid_utf8};
use crate::protocol::error::ProtocolError;
use crate::protocol::message::opt_string_view;
use crate::protocol::wire::{
    i64_of_pattern, le_value, lemma_le_value_bound, lemma_radix_values, parse_bool, parse_bytes,
    parse_i64, parse_opt_string, parse_opt_u32, parse_string, parse_u32, parse_u64, parse_u8,
    radix, Parsed,
};

verus! {

/// A read position in a borrowed byte buffer.
#[derive(Clone, Copy)]
pub struct ByteReader<'a> {
    data: &'a [u8],
    pos: usize,
}

/// Whether a read did what a parser says. Where the parser yields a value
/// and the input after it, the read gave a value with that view and the
/// reader stands at that input. Where the parser fails, the read failed in
/// the same way and the reader stands where it stood.
pub open spec fn reads_as<T, V>(
    r: Result<T, ProtocolError>,
    before: Seq<u8>,
    after: Seq<u8>,
    expected: Parsed<V>,
    view: spec_fn(T) -> V,
) -> bool {
    match expected {
        Ok((v, rest)) => r matches Ok(got) && view(got) == v && after == rest,
        Err(e) => r matches Err(failure) && failure@ == e && after == before,
    }
}

impl<'a> ByteReader<'a> {
    #[verifier::type_invariant]
    spec fn position_in_bounds(self) -> bool {
        self.pos <= self.data@.len()
    }

    /// The bytes that have not been read yet.
    pub closed spec fn remaining(&self) -> Seq<u8> {
        self.data@.skip(self.pos as int)
    }

    /// A reader at the start of `data`.
    pub fn new(data: &'a [u8]) -> (reader: ByteReader<'a>)
        ensures
            reader.remaining() == data@,
    {
        assert(data@.skip(0) =~= data@);
        ByteReader { data, pos: 0 }
    }

    /// How many bytes have not been read yet.
    pub fn remaining_len(&self) -> (n: usize)
        ensures
            n == self.remaining().len(),
    {
        proof {
            use_type_invariant(self);
        }
        self.data.len() - self.pos
    }

    /// Takes the next `n` bytes, if there are that many.
    pub fn take(&mut self, n: usize) -> (r: Result<&'a [u8], ProtocolError>)
        ensures
            reads_as(
                r,
                old(self).remaining(),
                final(self).remaining(),
                parse_bytes(old(self).remaining(), n as nat),
                |bytes: &[u8]| bytes@,
            ),
    {
        proof {
            use_type_invariant(&*self);
            reveal(parse_bytes);
        }
        if self.data.len() - self.pos < n {
            return Err(ProtocolError::truncated());
        }
        let start = self.pos;
        let data: &'a [u8] = self.data;
        let taken = &data[start..start + n];
        self.pos = start + n;
        proof {
            let before = data@.skip(start as int);
            assert(taken@ =~= before.take(n as int));
            assert(data@.skip(start + n) =~= before.skip(n as int));
        }
        Ok(taken)
    }
}

/// Reads one byte.
pub fn read_u8(reader: &mut ByteReader) -> (r: Result<u8, ProtocolError>)
    ensures
        reads_as(
            r,
            old(reader).remaining(),
            final(reader).remaining(),
            parse_u8(old(reader).remaining()),
            |v: u8| v,
        ),
{
    proof {
        reveal(parse_u8);
        reveal(parse_bytes);
    }
    let ghost input = reader.remaining();
    match reader.take(1) {
        Ok(bytes) => {
            assert(bytes@[0] == input[0]);
            Ok(bytes[0])
        },
        Err(e) => Err(e),
    }
}

/// Reads one byte as a flag: zero is false, anything else is true.
pub fn read_bool(reader: &mut ByteReader) -> (r: Result<bool, ProtocolError>)
    ensures
        reads_as(
            r,
            old(reader).remaining(),
            final(reader).remaining(),
            parse_bool(old(reader).remaining()),
            |v: bool| v,
        ),
{
    proof {
        reveal(parse_bool);
    }
    match read_u8(reader) {
        Ok(b) => Ok(b != 0),
        Err(e) => Err(e),
    }
}

/// More bytes can hold more values.
proof fn lemma_radix_monotonic(a: nat, b: nat)
    requires
        a <= b,
    ensures
        radix(a) <= radix(b),
    decreases b,
{
    if a < b {
        lemma_radix_monotonic(a, (b - 1) as nat);
    }
}

/// The number that `bytes` spell, least significant byte first.
fn le_number(bytes: &[u8]) -> (v: u64)
    requires
        bytes@.len() <= 8,
    ensures
        v == le_value(bytes@),
{
    let mut acc: u64 = 0;
    let mut k: usize = bytes.len();
    assert(bytes@.skip(k as int) =~= Seq::<u8>::empty());
    while k > 0
        invariant
            k <= bytes@.len() <= 8,
            acc == le_value(bytes@.skip(k as int)),
        decreases k,
    {
        proof {
            let tail = bytes@.skip(k as int);
            let with = bytes@.skip(k - 1);
            assert(with.drop_first() =~= tail);
            assert(with[0] == bytes@[k - 1]);
            lemma_le_value_bound(with);
            lemma_le_value_bound(tail);
            lemma_radix_monotonic(with.len(), 8);
            lemma_radix_values();
        }
        k = k - 1;
        acc = acc * 256 + bytes[k] as u64;
    }
    assert(bytes@.skip(0) =~= bytes@);
    acc
}

/// Reads four bytes as a little-endian number.
pub fn read_u32_le(reader: &mut ByteReader) -> (r: Result<u32, ProtocolError>)
    ensures
        reads_as(
            r,
            old(reader).remaining(),
            final(reader).remaining(),
            parse_u32(old(reader).remaining()),
            |v: u32| v,
        ),
{
    proof {
        reveal(parse_u32);
        reveal(parse_bytes);
    }
    match reader.take(4) {
        Ok(bytes) => {
            proof {
                lemma_le_value_bound(bytes@);
                lemma_radix_values();
            }
            Ok(le_number(bytes) as u32)
        },
        Err(e) => Err(e),
    }
}

/// Reads eight bytes as a little-endian number.
pub fn read_u64_le(reader: &mut ByteReader) -> (r: Result<u64, ProtocolError>)
    ensures
        reads_as(
            r,
            old(reader).remaining(),
            final(reader).remaining(),
            parse_u64(old(reader).remaining()),
            |v: u64| v,
        ),
{
    proof {
        reveal(parse_u64);
        reveal(parse_bytes);
    }
    match reader.take(8) {
        Ok(bytes) => Ok(le_number(bytes)),
        Err(e) => Err(e),
    }
}

/// Reads eight bytes as a little-endian two's complement number.
pub fn read_i64_le(reader: &mut ByteReader) -> (r: Result<i64, ProtocolError>)
    ensures
        reads_as(
            r,
            old(reader).remaining(),
            final(reader).remaining(),
            parse_i64(old(reader).remaining()),
            |v: i64| v,
        ),
{
    proof {
        reveal(parse_i64);
        reveal(parse_bytes);
    }
    match reader.take(8) {
        Ok(bytes) => {
            let pattern = le_number(bytes);
            let value: i64 = if pattern < 0x8000_0000_0000_0000u64 {
                pattern as i64
            } else {
                (pattern - 0x8000_0000_0000_0000u64) as i64 + i64::MIN
            };
            assert(value == i64_of_pattern(pattern as nat));
            Ok(value)
        },
        Err(e) => Err(e),
    }
}

/// `String::from_utf8` of the standard library: the bytes become a string
/// exactly when they are well-formed UTF-8, and the string's UTF-8 form is
/// then those bytes. Taken on trust.
#[verifier::external_body]
fn string_from_utf8(bytes: Vec<u8>) -> (r: Option<String>)
    ensures
        r is Some <==> valid_utf8(bytes@),
        r matches Some(text) ==> encode_utf8(text@) == bytes@,
{
    match String::from_utf8(bytes) {
        Ok(text) => Some(text),
        Err(_) => None,
    }
}

/// Reads a length-prefixed string. Fails if the length runs past the input
/// or the bytes are not UTF-8.
pub fn read_string(reader: &mut ByteReader) -> (r: Result<String, ProtocolError>)
    ensures
        reads_as(
            r,
            old(reader).remaining(),
            final(reader).remaining(),
            parse_string(old(reader).remaining()),
            |text: String| text@,
        ),
{
    proof {
        reveal(parse_string);
        reveal(parse_bytes);
    }
    let mut probe = *reader;
    let len = match read_u64_le(&mut probe) {
        Ok(n) => n,
        Err(e) => {
            return Err(e);
        },
    };
    if len > probe.remaining_len() as u64 {
        return Err(ProtocolError::truncated());
    }
    let bytes = match probe.take(len as usize) {
        Ok(b) => b,
        Err(e) => {
            return Err(e);
        },
    };
    match string_from_utf8(slice_to_vec(bytes)) {
        Some(text) => {
            proof {
                encode_utf8_decode_utf8(text@);
            }
            *reader = probe;
            Ok(text)
        },
        None => Err(ProtocolError::invalid_utf8()),
    }
}

/// Reads a presence byte and, if it is set, a string.
pub fn read_optional_string(reader: &mut ByteReader) -> (r: Result<Option<String>, ProtocolError>)
    ensures
        reads_as(
            r,
            old(reader).remaining(),
            final(reader).remaining(),
            parse_opt_string(old(reader).remaining()),
            |text: Option<String>| opt_string_view(text),
        ),
{
    proof {
        reveal(parse_opt_string);
    }
    let mut probe = *reader;
    let has_value = match read_bool(&mut probe) {
        Ok(b) => b,
        Err(e) => {
            return Err(e);
        },
    };
    let value = if has_value {
        match read_string(&mut probe) {
            Ok(text) => Some(text),
            Err(e) => {
                return Err(e);
            },
        }
    } else {
        None
    };
    *reader = probe;
    Ok(value)
}

/// Reads a presence byte and, if it is set, a 32-bit number.
pub fn read_optional_u32(reader: &mut ByteReader) -> (r: Result<Option<u32>, ProtocolError>)
    ensures
        reads_as(
            r,
            old(reader).remaining(),
            final(reader).remaining(),
            parse_opt_u32(old(reader).remaining()),
            |v: Option<u32>| v,
        ),
{
    proof {
        reveal(parse_opt_u32);
    }
    let mut probe = *reader;
    let has_value = match read_bool(&mut probe) {
        Ok(b) => b,
        Err(e) => {
            return Err(e);
        },
    };
    let value = if has_value {
        match read_u32_le(&mut probe) {
            Ok(v) => Some(v),
            Err(e) => {
                return Err(e);
            },
        }
    } else {
        None
    };
    *reader = probe;
    Ok(value)
}

} // verus!
