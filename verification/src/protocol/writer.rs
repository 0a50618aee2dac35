//! Appending single fields to a byte buffer, in the wire layout.

use vstd::prelude::*;
use crate::protocol::wire::{
    be_bytes, bool_bytes, i64_bytes, i64_pattern, le_bytes, lemma_be_bytes_4, opt_string_bytes,
    opt_u32_bytes, string_bytes, string_fits, u32_bytes, u64_bytes,
};

verus! {

/// Appends the `width` low bytes of `value`, least significant first.
fn put_le(buf: &mut Vec<u8>, value: u64, width: usize)
    requires
        width <= 8,
    ensures
        final(buf)@ == old(buf)@ + le_bytes(value as nat, width as nat),
{
    let mut rest: u64 = value;
    let mut done: usize = 0;
    while done < width
        invariant
            done <= width,
            buf@ + le_bytes(rest as nat, (width - done) as nat) == old(buf)@ + le_bytes(
                value as nat,
                width as nat,
            ),
        decreases width - done,
    {
        let ghost before = buf@;
        let low: u8 = (rest % 256) as u8;
        buf.push(low);
        proof {
            let tail = le_bytes((rest / 256) as nat, (width - done - 1) as nat);
            assert(le_bytes(rest as nat, (width - done) as nat) == seq![low] + tail);
            assert(before.push(low) + tail =~= before + (seq![low] + tail));
        }
        rest = rest / 256;
        done = done + 1;
    }
    assert(buf@ + Seq::<u8>::empty() =~= buf@);
}

/// Appends a flag as one byte, 1 for true and 0 for false.
pub fn write_bool(buf: &mut Vec<u8>, value: bool)
    ensures
        final(buf)@ == old(buf)@ + bool_bytes(value),
{
    proof {
        reveal(bool_bytes);
    }
    let ghost before = buf@;
    buf.push(if value { 1 } else { 0 });
    assert(buf@ =~= before + bool_bytes(value));
}

/// Appends a 32-bit number as four little-endian bytes.
pub fn write_u32_le(buf: &mut Vec<u8>, value: u32)
    ensures
        final(buf)@ == old(buf)@ + u32_bytes(value),
{
    proof {
        reveal(u32_bytes);
    }
    put_le(buf, value as u64, 4);
}

/// Appends a 32-bit number as four big-endian bytes.
pub fn write_u32_be(buf: &mut Vec<u8>, value: u32)
    ensures
        final(buf)@ == old(buf)@ + be_bytes(value as nat, 4),
{
    let ghost before = buf@;
    buf.push((value / 0x100_0000 % 256) as u8);
    buf.push((value / 0x1_0000 % 256) as u8);
    buf.push((value / 0x100 % 256) as u8);
    buf.push((value % 256) as u8);
    proof {
        lemma_be_bytes_4(value as nat);
        assert(buf@ =~= before + be_bytes(value as nat, 4));
    }
}

/// Appends a 64-bit number as eight little-endian bytes.
pub fn write_u64_le(buf: &mut Vec<u8>, value: u64)
    ensures
        final(buf)@ == old(buf)@ + u64_bytes(value),
{
    proof {
        reveal(u64_bytes);
    }
    put_le(buf, value, 8);
}

/// Appends a signed 64-bit number as the eight little-endian bytes of its
/// two's complement pattern.
pub fn write_i64_le(buf: &mut Vec<u8>, value: i64)
    ensures
        final(buf)@ == old(buf)@ + i64_bytes(value),
{
    proof {
        reveal(i64_bytes);
    }
    let pattern: u64 = if value >= 0 {
        value as u64
    } else {
        ((value + i64::MAX) + 1) as u64 + 0x8000_0000_0000_0000u64
    };
    assert(pattern as nat == i64_pattern(value));
    put_le(buf, pattern, 8);
}

/// Appends every byte of `bytes`.
pub fn write_bytes(buf: &mut Vec<u8>, bytes: &[u8])
    ensures
        final(buf)@ == old(buf)@ + bytes@,
{
    let ghost before = buf@;
    let mut i: usize = 0;
    while i < bytes.len()
        invariant
            i <= bytes@.len(),
            buf@ == before + bytes@.take(i as int),
        decreases bytes@.len() - i,
    {
        let ghost so_far = buf@;
        buf.push(bytes[i]);
        assert(so_far.push(bytes@[i as int]) =~= before + bytes@.take(i + 1));
        i = i + 1;
    }
    assert(bytes@.take(bytes@.len() as int) =~= bytes@);
}

/// Appends a string: the length of its UTF-8 form as eight little-endian
/// bytes, then that form.
pub fn write_string(buf: &mut Vec<u8>, value: &str)
    ensures
        final(buf)@ == old(buf)@ + string_bytes(value@),
        string_fits(value@),
{
    proof {
        reveal(string_bytes);
        reveal(u64_bytes);
    }
    let ghost before = buf@;
    let bytes = value.as_bytes();
    write_u64_le(buf, bytes.len() as u64);
    write_bytes(buf, bytes);
    assert(buf@ =~= before + string_bytes(value@));
}

/// Appends an optional string: a presence byte, then the string if there is one.
pub fn write_optional_string(buf: &mut Vec<u8>, value: Option<&str>)
    ensures
        final(buf)@ == old(buf)@ + opt_string_bytes(
            match value {
                Some(text) => Some(text@),
                None => None,
            },
        ),
        value matches Some(text) ==> string_fits(text@),
{
    proof {
        reveal(opt_string_bytes);
    }
    let ghost before = buf@;
    match value {
        Some(text) => {
            buf.push(1);
            write_string(buf, text);
            assert(buf@ =~= before + (seq![1u8] + string_bytes(text@)));
        },
        None => {
            buf.push(0);
            assert(buf@ =~= before + seq![0u8]);
        },
    }
}

/// Appends an optional 32-bit number: a presence byte, then the number if there is one.
pub fn write_optional_u32(buf: &mut Vec<u8>, value: Option<u32>)
    ensures
        final(buf)@ == old(buf)@ + opt_u32_bytes(value),
{
    proof {
        reveal(opt_u32_bytes);
    }
    let ghost before = buf@;
    match value {
        Some(v) => {
            buf.push(1);
            write_u32_le(buf, v);
            assert(buf@ =~= before + (seq![1u8] + u32_bytes(v)));
        },
        None => {
            buf.push(0);
            assert(buf@ =~= before + seq![0u8]);
        },
    }
}

} // verus!
