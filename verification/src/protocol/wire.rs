//! The wire layout of single fields, as mathematics.
//!
//! Every field has a function from its value to its bytes and a parser from
//! bytes back to the value and the bytes that follow it. The lemmas at the
//! end show that each parser undoes its encoder, whatever follows.
//!
//! Integers inside a frame body are little-endian. The length prefix of a
//! frame is big-endian. Both are part of the wire contract.

use vstd::prelude::*;
use vstd::utf8::*;
use crate::protocol::error::{invalid_utf8_text, truncated_text, ProtocolErrorView};

verus! {

/// What a parser yields: the value and the input that follows it, or a failure.
pub type Parsed<T> = Result<(T, Seq<u8>), ProtocolErrorView>;

/// The failure of a parser that ran out of input.
pub open spec fn truncated_failure() -> ProtocolErrorView {
    ProtocolErrorView::Serialization(truncated_text())
}

/// The failure of a parser that met a string that is not UTF-8.
pub open spec fn invalid_utf8_failure() -> ProtocolErrorView {
    ProtocolErrorView::Serialization(invalid_utf8_text())
}

/// 256 to the power `n`: the number of values that `n` bytes can hold.
pub open spec fn radix(n: nat) -> nat
    decreases n,
{
    if n == 0 {
        1
    } else {
        256 * radix((n - 1) as nat)
    }
}

/// The `width` low bytes of `value`, least significant first.
pub open spec fn le_bytes(value: nat, width: nat) -> Seq<u8>
    decreases width,
{
    if width == 0 {
        Seq::empty()
    } else {
        seq![(value % 256) as u8] + le_bytes(value / 256, (width - 1) as nat)
    }
}

/// The number that `bytes` spell, least significant byte first.
pub open spec fn le_value(bytes: Seq<u8>) -> nat
    decreases bytes.len(),
{
    if bytes.len() == 0 {
        0
    } else {
        bytes[0] as nat + 256 * le_value(bytes.drop_first())
    }
}

/// The `width` low bytes of `value`, most significant first.
pub open spec fn be_bytes(value: nat, width: nat) -> Seq<u8>
    decreases width,
{
    if width == 0 {
        Seq::empty()
    } else {
        be_bytes(value / 256, (width - 1) as nat) + seq![(value % 256) as u8]
    }
}

/// The number that `bytes` spell, most significant byte first.
pub open spec fn be_value(bytes: Seq<u8>) -> nat
    decreases bytes.len(),
{
    if bytes.len() == 0 {
        0
    } else {
        256 * be_value(bytes.drop_last()) + bytes.last() as nat
    }
}

/// The unsigned 64-bit pattern of a signed number, in two's complement.
pub open spec fn i64_pattern(x: i64) -> nat {
    if x >= 0 {
        x as nat
    } else {
        (x + 0x1_0000_0000_0000_0000) as nat
    }
}

/// The signed number that a 64-bit pattern stands for, in two's complement.
pub open spec fn i64_of_pattern(pattern: nat) -> i64 {
    if pattern < 0x8000_0000_0000_0000 {
        pattern as i64
    } else {
        (pattern - 0x1_0000_0000_0000_0000) as i64
    }
}

/// A string can be written when the length of its UTF-8 form fits in eight bytes.
pub open spec fn string_fits(s: Seq<char>) -> bool {
    encode_utf8(s).len() <= u64::MAX
}

/// An optional string can be written when it is absent or fits.
pub open spec fn opt_string_fits(s: Option<Seq<char>>) -> bool {
    s matches Some(text) ==> string_fits(text)
}

// ---------------------------------------------------------------------------
// Encoders
// ---------------------------------------------------------------------------

/// A flag is one byte, 0 or 1.
#[verifier::opaque]
pub open spec fn bool_bytes(b: bool) -> Seq<u8> {
    seq![if b { 1u8 } else { 0u8 }]
}

/// An unsigned 32-bit number is four bytes, little-endian.
#[verifier::opaque]
pub open spec fn u32_bytes(x: u32) -> Seq<u8> {
    le_bytes(x as nat, 4)
}

/// An unsigned 64-bit number is eight bytes, little-endian.
#[verifier::opaque]
pub open spec fn u64_bytes(x: u64) -> Seq<u8> {
    le_bytes(x as nat, 8)
}

/// A signed 64-bit number is the eight little-endian bytes of its two's complement pattern.
#[verifier::opaque]
pub open spec fn i64_bytes(x: i64) -> Seq<u8> {
    le_bytes(i64_pattern(x), 8)
}

/// A string is the length of its UTF-8 form as eight little-endian bytes, then that form.
#[verifier::opaque]
pub open spec fn string_bytes(s: Seq<char>) -> Seq<u8> {
    le_bytes(encode_utf8(s).len(), 8) + encode_utf8(s)
}

/// An optional string is a presence flag, then the string if there is one.
#[verifier::opaque]
pub open spec fn opt_string_bytes(s: Option<Seq<char>>) -> Seq<u8> {
    match s {
        Some(text) => seq![1u8] + string_bytes(text),
        None => seq![0u8],
    }
}

/// An optional 32-bit number is a presence flag, then the number if there is one.
#[verifier::opaque]
pub open spec fn opt_u32_bytes(x: Option<u32>) -> Seq<u8> {
    match x {
        Some(v) => seq![1u8] + u32_bytes(v),
        None => seq![0u8],
    }
}

// ---------------------------------------------------------------------------
// Parsers
// ---------------------------------------------------------------------------

/// Takes the first `n` bytes of the input.
#[verifier::opaque]
pub open spec fn parse_bytes(input: Seq<u8>, n: nat) -> Parsed<Seq<u8>> {
    if input.len() < n {
        Err(truncated_failure())
    } else {
        Ok((input.take(n as int), input.skip(n as int)))
    }
}

/// Takes one byte.
#[verifier::opaque]
pub open spec fn parse_u8(input: Seq<u8>) -> Parsed<u8> {
    if input.len() < 1 {
        Err(truncated_failure())
    } else {
        Ok((input[0], input.skip(1)))
    }
}

/// Takes one byte as a flag: zero is false, anything else is true.
#[verifier::opaque]
pub open spec fn parse_bool(input: Seq<u8>) -> Parsed<bool> {
    match parse_u8(input) {
        Ok((b, rest)) => Ok((b != 0, rest)),
        Err(e) => Err(e),
    }
}

/// Takes four bytes as a little-endian number.
#[verifier::opaque]
pub open spec fn parse_u32(input: Seq<u8>) -> Parsed<u32> {
    match parse_bytes(input, 4) {
        Ok((bytes, rest)) => Ok((le_value(bytes) as u32, rest)),
        Err(e) => Err(e),
    }
}

/// Takes eight bytes as a little-endian number.
#[verifier::opaque]
pub open spec fn parse_u64(input: Seq<u8>) -> Parsed<u64> {
    match parse_bytes(input, 8) {
        Ok((bytes, rest)) => Ok((le_value(bytes) as u64, rest)),
        Err(e) => Err(e),
    }
}

/// Takes eight bytes as a little-endian two's complement number.
#[verifier::opaque]
pub open spec fn parse_i64(input: Seq<u8>) -> Parsed<i64> {
    match parse_bytes(input, 8) {
        Ok((bytes, rest)) => Ok((i64_of_pattern(le_value(bytes)), rest)),
        Err(e) => Err(e),
    }
}

/// Takes a length-prefixed string. The length must not run past the input,
/// and the bytes must be UTF-8.
#[verifier::opaque]
pub open spec fn parse_string(input: Seq<u8>) -> Parsed<Seq<char>> {
    match parse_u64(input) {
        Err(e) => Err(e),
        Ok((n, rest)) => {
            if n > rest.len() {
                Err(truncated_failure())
            } else if !valid_utf8(rest.take(n as int)) {
                Err(invalid_utf8_failure())
            } else {
                Ok((decode_utf8(rest.take(n as int)), rest.skip(n as int)))
            }
        },
    }
}

/// Takes a presence flag and, if it is set, a string.
#[verifier::opaque]
pub open spec fn parse_opt_string(input: Seq<u8>) -> Parsed<Option<Seq<char>>> {
    match parse_bool(input) {
        Err(e) => Err(e),
        Ok((present, rest)) => {
            if present {
                match parse_string(rest) {
                    Ok((text, after)) => Ok((Some(text), after)),
                    Err(e) => Err(e),
                }
            } else {
                Ok((None, rest))
            }
        },
    }
}

/// Takes a presence flag and, if it is set, a 32-bit number.
#[verifier::opaque]
pub open spec fn parse_opt_u32(input: Seq<u8>) -> Parsed<Option<u32>> {
    match parse_bool(input) {
        Err(e) => Err(e),
        Ok((present, rest)) => {
            if present {
                match parse_u32(rest) {
                    Ok((v, after)) => Ok((Some(v), after)),
                    Err(e) => Err(e),
                }
            } else {
                Ok((None, rest))
            }
        },
    }
}

// ---------------------------------------------------------------------------
// Facts about the number encodings
// ---------------------------------------------------------------------------

/// The values of `radix` at the widths that the protocol uses.
pub proof fn lemma_radix_values()
    ensures
        radix(0) == 1,
        radix(1) == 0x100,
        radix(2) == 0x1_0000,
        radix(3) == 0x100_0000,
        radix(4) == 0x1_0000_0000,
        radix(5) == 0x100_0000_0000,
        radix(6) == 0x1_0000_0000_0000,
        radix(7) == 0x100_0000_0000_0000,
        radix(8) == 0x1_0000_0000_0000_0000,
{
    reveal_with_fuel(radix, 10);
}

/// An encoding has the width that was asked for.
pub proof fn lemma_le_bytes_len(value: nat, width: nat)
    ensures
        le_bytes(value, width).len() == width,
    decreases width,
{
    if width > 0 {
        lemma_le_bytes_len(value / 256, (width - 1) as nat);
    }
}

/// What `n` bytes spell is below 256 to the `n`.
pub proof fn lemma_le_value_bound(bytes: Seq<u8>)
    ensures
        le_value(bytes) < radix(bytes.len()),
    decreases bytes.len(),
{
    if bytes.len() > 0 {
        lemma_le_value_bound(bytes.drop_first());
    }
}

/// Reading back a little-endian encoding gives the number, when it fits the width.
pub proof fn lemma_le_round_trip(value: nat, width: nat)
    requires
        value < radix(width),
    ensures
        le_value(le_bytes(value, width)) == value,
    decreases width,
{
    if width > 0 {
        let tail = le_bytes(value / 256, (width - 1) as nat);
        let all = le_bytes(value, width);
        assert(all.drop_first() =~= tail);
        lemma_le_round_trip(value / 256, (width - 1) as nat);
    }
}

/// An encoding has the width that was asked for.
pub proof fn lemma_be_bytes_len(value: nat, width: nat)
    ensures
        be_bytes(value, width).len() == width,
    decreases width,
{
    if width > 0 {
        lemma_be_bytes_len(value / 256, (width - 1) as nat);
    }
}

/// Reading back a big-endian encoding gives the number, when it fits the width.
pub proof fn lemma_be_round_trip(value: nat, width: nat)
    requires
        value < radix(width),
    ensures
        be_value(be_bytes(value, width)) == value,
    decreases width,
{
    if width > 0 {
        let head = be_bytes(value / 256, (width - 1) as nat);
        let all = be_bytes(value, width);
        assert(all.drop_last() =~= head);
        lemma_be_round_trip(value / 256, (width - 1) as nat);
    }
}

/// A big-endian encoding of four bytes, spelled out.
pub proof fn lemma_be_bytes_4(value: nat)
    ensures
        be_bytes(value, 4) == seq![
            (value / 0x100_0000 % 256) as u8,
            (value / 0x1_0000 % 256) as u8,
            (value / 0x100 % 256) as u8,
            (value % 256) as u8,
        ],
{
    reveal_with_fuel(be_bytes, 5);
    assert(be_bytes(value, 4) =~= seq![
        (value / 256 / 256 / 256 % 256) as u8,
        (value / 256 / 256 % 256) as u8,
        (value / 256 % 256) as u8,
        (value % 256) as u8,
    ]);
    assert(value / 256 / 256 == value / 0x1_0000);
    assert(value / 256 / 256 / 256 == value / 0x100_0000);
}

/// What four bytes spell big-endian, spelled out.
pub proof fn lemma_be_value_4(bytes: Seq<u8>)
    requires
        bytes.len() == 4,
    ensures
        be_value(bytes) == bytes[0] * 0x100_0000 + bytes[1] * 0x1_0000 + bytes[2] * 0x100
            + bytes[3],
{
    let b3 = bytes.drop_last();
    let b2 = b3.drop_last();
    let b1 = b2.drop_last();
    let b0 = b1.drop_last();
    assert(b0.len() == 0);
    assert(be_value(b0) == 0);
    assert(be_value(b1) == 256 * be_value(b0) + b1.last());
    assert(be_value(b2) == 256 * be_value(b1) + b2.last());
    assert(be_value(b3) == 256 * be_value(b2) + b3.last());
    assert(be_value(bytes) == 256 * be_value(b3) + bytes.last());
    assert(b1.last() == bytes[0]);
    assert(b2.last() == bytes[1]);
    assert(b3.last() == bytes[2]);
}

/// Two's complement loses nothing.
pub proof fn lemma_i64_pattern_round_trip(x: i64)
    ensures
        i64_pattern(x) < radix(8),
        i64_of_pattern(i64_pattern(x)) == x,
{
    lemma_radix_values();
}

// ---------------------------------------------------------------------------
// Each parser undoes its encoder, whatever follows
// ---------------------------------------------------------------------------

/// Concatenation may be regrouped.
pub proof fn lemma_concat_assoc(a: Seq<u8>, b: Seq<u8>, c: Seq<u8>)
    ensures
        (a + b) + c == a + (b + c),
{
    assert((a + b) + c =~= a + (b + c));
}

/// Taking `bytes.len()` bytes from `bytes + rest` gives `bytes` and leaves `rest`.
pub proof fn lemma_parse_bytes(bytes: Seq<u8>, rest: Seq<u8>)
    ensures
        parse_bytes(bytes + rest, bytes.len()) == Ok::<(Seq<u8>, Seq<u8>), ProtocolErrorView>(
            (bytes, rest),
        ),
{
    reveal(parse_bytes);
    let input = bytes + rest;
    assert(input.take(bytes.len() as int) =~= bytes);
    assert(input.skip(bytes.len() as int) =~= rest);
}

/// A byte comes back as it was written.
pub proof fn lemma_parse_u8(x: u8, rest: Seq<u8>)
    ensures
        parse_u8(seq![x] + rest) == Ok::<(u8, Seq<u8>), ProtocolErrorView>((x, rest)),
{
    reveal(parse_u8);
    assert((seq![x] + rest).skip(1) =~= rest);
}

/// A flag comes back as it was written.
pub proof fn lemma_parse_bool(b: bool, rest: Seq<u8>)
    ensures
        parse_bool(bool_bytes(b) + rest) == Ok::<(bool, Seq<u8>), ProtocolErrorView>((b, rest)),
{
    reveal(parse_bool);
    reveal(bool_bytes);
    lemma_parse_u8(if b { 1u8 } else { 0u8 }, rest);
}

/// A 32-bit number comes back as it was written.
pub proof fn lemma_parse_u32(x: u32, rest: Seq<u8>)
    ensures
        parse_u32(u32_bytes(x) + rest) == Ok::<(u32, Seq<u8>), ProtocolErrorView>((x, rest)),
{
    reveal(parse_u32);
    reveal(u32_bytes);
    lemma_radix_values();
    lemma_le_bytes_len(x as nat, 4);
    lemma_le_round_trip(x as nat, 4);
    lemma_parse_bytes(u32_bytes(x), rest);
}

/// A 64-bit number comes back as it was written.
pub proof fn lemma_parse_u64(x: u64, rest: Seq<u8>)
    ensures
        parse_u64(u64_bytes(x) + rest) == Ok::<(u64, Seq<u8>), ProtocolErrorView>((x, rest)),
{
    reveal(parse_u64);
    reveal(u64_bytes);
    lemma_radix_values();
    lemma_le_bytes_len(x as nat, 8);
    lemma_le_round_trip(x as nat, 8);
    lemma_parse_bytes(u64_bytes(x), rest);
}

/// A signed number comes back as it was written.
pub proof fn lemma_parse_i64(x: i64, rest: Seq<u8>)
    ensures
        parse_i64(i64_bytes(x) + rest) == Ok::<(i64, Seq<u8>), ProtocolErrorView>((x, rest)),
{
    reveal(parse_i64);
    reveal(i64_bytes);
    lemma_i64_pattern_round_trip(x);
    lemma_le_bytes_len(i64_pattern(x), 8);
    lemma_le_round_trip(i64_pattern(x), 8);
    lemma_parse_bytes(i64_bytes(x), rest);
}

/// A string comes back as it was, provided its UTF-8 form is short enough
/// for its length to be written in eight bytes.
pub proof fn lemma_parse_string(s: Seq<char>, rest: Seq<u8>)
    requires
        string_fits(s),
    ensures
        parse_string(string_bytes(s) + rest) == Ok::<(Seq<char>, Seq<u8>), ProtocolErrorView>(
            (s, rest),
        ),
{
    reveal(parse_string);
    reveal(string_bytes);
    reveal(u64_bytes);
    let utf8 = encode_utf8(s);
    let n = utf8.len() as u64;
    assert(string_bytes(s) + rest =~= u64_bytes(n) + (utf8 + rest));
    lemma_parse_u64(n, utf8 + rest);
    assert((utf8 + rest).take(n as int) =~= utf8);
    assert((utf8 + rest).skip(n as int) =~= rest);
    encode_utf8_valid_utf8(s);
    encode_utf8_decode_utf8(s);
}

/// An optional string comes back as it was: absent if absent, present if present.
pub proof fn lemma_parse_opt_string(s: Option<Seq<char>>, rest: Seq<u8>)
    requires
        opt_string_fits(s),
    ensures
        parse_opt_string(opt_string_bytes(s) + rest) == Ok::<
            (Option<Seq<char>>, Seq<u8>),
            ProtocolErrorView,
        >((s, rest)),
{
    reveal(parse_opt_string);
    reveal(opt_string_bytes);
    reveal(bool_bytes);
    match s {
        Some(text) => {
            assert(opt_string_bytes(s) + rest =~= bool_bytes(true) + (string_bytes(text) + rest));
            lemma_parse_bool(true, string_bytes(text) + rest);
            lemma_parse_string(text, rest);
        },
        None => {
            assert(opt_string_bytes(s) + rest =~= bool_bytes(false) + rest);
            lemma_parse_bool(false, rest);
        },
    }
}

/// An optional number comes back as it was.
pub proof fn lemma_parse_opt_u32(x: Option<u32>, rest: Seq<u8>)
    ensures
        parse_opt_u32(opt_u32_bytes(x) + rest) == Ok::<(Option<u32>, Seq<u8>), ProtocolErrorView>(
            (x, rest),
        ),
{
    reveal(parse_opt_u32);
    reveal(opt_u32_bytes);
    reveal(bool_bytes);
    match x {
        Some(v) => {
            assert(opt_u32_bytes(x) + rest =~= bool_bytes(true) + (u32_bytes(v) + rest));
            lemma_parse_bool(true, u32_bytes(v) + rest);
            lemma_parse_u32(v, rest);
        },
        None => {
            assert(opt_u32_bytes(x) + rest =~= bool_bytes(false) + rest);
            lemma_parse_bool(false, rest);
        },
    }
}

} // verus!
