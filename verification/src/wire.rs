//! The mathematics of the wire format: big-endian numbers and two's complement.

use crate::codec::MAX_FIELD_LEN;
use crate::error::ProtoError;
use vstd::arithmetic::power::*;
use vstd::prelude::*;
use vstd::utf8::*;

verus! {

/// The number that `bytes` spell in network byte order.
pub open spec fn be_value(bytes: Seq<u8>) -> nat
    decreases bytes.len(),
{
    if bytes.len() == 0 {
        0
    } else {
        be_value(bytes.drop_last()) * 256 + bytes.last() as nat
    }
}

/// The `width` low-order base-256 digits of `value`, most significant first.
pub open spec fn be_wire(value: nat, width: nat) -> Seq<u8>
    decreases width,
{
    if width == 0 {
        Seq::empty()
    } else {
        be_wire(value / 256, (width - 1) as nat).push((value % 256) as u8)
    }
}

/// The unsigned number with the same 8-bit pattern as `v`.
pub open spec fn bits8(v: i8) -> nat {
    if v < 0 {
        (v + 0x100) as nat
    } else {
        v as nat
    }
}

/// The unsigned number with the same 16-bit pattern as `v`.
pub open spec fn bits16(v: i16) -> nat {
    if v < 0 {
        (v + 0x1_0000) as nat
    } else {
        v as nat
    }
}

/// The unsigned number with the same 32-bit pattern as `v`.
pub open spec fn bits32(v: i32) -> nat {
    if v < 0 {
        (v + 0x1_0000_0000) as nat
    } else {
        v as nat
    }
}

/// The signed 8-bit number whose pattern is that of `n`.
pub open spec fn signed8(n: nat) -> i8 {
    if n < 0x80 {
        n as i8
    } else {
        (n - 0x100) as i8
    }
}

/// The signed 16-bit number whose pattern is that of `n`.
pub open spec fn signed16(n: nat) -> i16 {
    if n < 0x8000 {
        n as i16
    } else {
        (n - 0x1_0000) as i16
    }
}

/// The signed 32-bit number whose pattern is that of `n`.
pub open spec fn signed32(n: nat) -> i32 {
    if n < 0x8000_0000 {
        n as i32
    } else {
        (n - 0x1_0000_0000) as i32
    }
}

/// What reading an item off the front of some input gives: the item or the error, and the input
/// that is left.
pub type Read<T> = (std::result::Result<T, ProtoError>, Seq<u8>);

/// Reads `n` raw bytes.
pub open spec fn read_raw(n: nat, input: Seq<u8>) -> Read<Seq<u8>> {
    if input.len() < n {
        (Err(ProtoError::UnexpectedEof { needed: n as usize, had: input.len() as usize }), input)
    } else {
        (Ok(input.take(n as int)), input.skip(n as int))
    }
}

/// Reads an unsigned number of `width` bytes.
pub open spec fn read_number(width: nat, input: Seq<u8>) -> Read<nat> {
    match read_raw(width, input) {
        (Ok(digits), rest) => (Ok(be_value(digits)), rest),
        (Err(e), rest) => (Err(e), rest),
    }
}

/// Reads a length-prefixed byte string of at most `MAX_FIELD_LEN` bytes.
pub open spec fn read_bytes(input: Seq<u8>) -> Read<Seq<u8>> {
    match read_number(4, input) {
        (Ok(len), rest) => if len > MAX_FIELD_LEN {
            (Err(ProtoError::TooLong { declared: len as usize, max: MAX_FIELD_LEN }), rest)
        } else {
            read_raw(len, rest)
        },
        (Err(e), rest) => (Err(e), rest),
    }
}

/// Reads a length-prefixed byte string that must be UTF-8.
pub open spec fn read_text(input: Seq<u8>) -> Read<Seq<char>> {
    match read_bytes(input) {
        (Ok(bytes), rest) => if valid_utf8(bytes) {
            (Ok(decode_utf8(bytes)), rest)
        } else {
            (Err(ProtoError::InvalidUtf8), rest)
        },
        (Err(e), rest) => (Err(e), rest),
    }
}

/// The `i`-th signed 32-bit number in `input`.
pub open spec fn int_at(input: Seq<u8>, i: int) -> i32 {
    signed32(be_value(input.subrange(4 * i, 4 * i + 4)))
}

/// Reads a count of at most a quarter of `MAX_FIELD_LEN`, and that many signed 32-bit numbers.
/// Input that ends early is consumed up to its last whole number.
pub open spec fn read_ints(input: Seq<u8>) -> Read<Seq<i32>> {
    match read_number(4, input) {
        (Ok(count), rest) => if count > MAX_FIELD_LEN / 4 {
            (Err(ProtoError::TooLong { declared: count as usize, max: MAX_FIELD_LEN / 4 }), rest)
        } else if rest.len() < 4 * count {
            let left = rest.len() % 4;
            (
                Err(ProtoError::UnexpectedEof { needed: 4, had: left as usize }),
                rest.skip(rest.len() - left),
            )
        } else {
            (Ok(Seq::new(count, |i: int| int_at(rest, i))), rest.skip(4 * count as int))
        },
        (Err(e), rest) => (Err(e), rest),
    }
}

/// A length-prefixed byte string. The prefix holds the low-order 32 bits of the length.
pub open spec fn bytes_wire(bytes: Seq<u8>) -> Seq<u8> {
    be_wire(bytes.len(), 4) + bytes
}

/// The numbers one after the other, four bytes each.
pub open spec fn ints_body(ints: Seq<i32>) -> Seq<u8>
    decreases ints.len(),
{
    if ints.len() == 0 {
        Seq::empty()
    } else {
        ints_body(ints.drop_last()) + be_wire(bits32(ints.last()), 4)
    }
}

/// A count, and that many numbers. The count holds the low-order 32 bits of the length.
pub open spec fn ints_wire(ints: Seq<i32>) -> Seq<u8> {
    be_wire(ints.len(), 4) + ints_body(ints)
}

/// Writing a number takes exactly the bytes of its width.
pub proof fn lemma_be_wire_len(value: nat, width: nat)
    ensures
        be_wire(value, width).len() == width,
    decreases width,
{
    if width > 0 {
        lemma_be_wire_len(value / 256, (width - 1) as nat);
    }
}

/// Reading back a written number gives the number, if it fits its width.
pub proof fn lemma_be_roundtrip(value: nat, width: nat)
    requires
        value < pow(256, width),
    ensures
        be_value(be_wire(value, width)) == value,
    decreases width,
{
    lemma_be_wire_len(value, width);
    if width == 0 {
        lemma_pow0(256);
    } else {
        let narrower = (width - 1) as nat;
        lemma_pow_adds(256, narrower, 1);
        lemma_pow1(256);
        assert(value / 256 < pow(256, narrower)) by (nonlinear_arith)
            requires
                value < pow(256, narrower) * 256,
        ;
        lemma_be_roundtrip(value / 256, narrower);
        assert(be_wire(value, width).drop_last() =~= be_wire(value / 256, narrower));
    }
}

/// A number of `n` bytes is below the `n`-th power of 256.
pub proof fn lemma_be_value_bound(bytes: Seq<u8>)
    ensures
        be_value(bytes) < pow(256, bytes.len()),
    decreases bytes.len(),
{
    if bytes.len() == 0 {
        lemma_pow0(256);
    } else {
        lemma_be_value_bound(bytes.drop_last());
        let narrower = (bytes.len() - 1) as nat;
        lemma_pow_adds(256, narrower, 1);
        lemma_pow1(256);
    }
}

/// The powers that bound the field widths in use.
pub proof fn lemma_widths()
    ensures
        pow(256, 1) == 0x100,
        pow(256, 2) == 0x1_0000,
        pow(256, 4) == 0x1_0000_0000,
        pow(256, 8) == 0x1_0000_0000_0000_0000,
{
    lemma_pow1(256);
    lemma_pow_adds(256, 1, 1);
    lemma_pow_adds(256, 2, 2);
    assert(pow(256, 4) == 0x1_0000 * 0x1_0000) by (nonlinear_arith)
        requires
            pow(256, 4) == pow(256, 2) * pow(256, 2),
            pow(256, 2) == 0x1_0000,
    ;
    lemma_pow_adds(256, 4, 4);
    assert(pow(256, 8) == 0x1_0000_0000 * 0x1_0000_0000) by (nonlinear_arith)
        requires
            pow(256, 8) == pow(256, 4) * pow(256, 4),
            pow(256, 4) == 0x1_0000_0000,
    ;
}

/// The four digits of a 32-bit number.
pub proof fn lemma_be_wire_4(value: nat)
    ensures
        be_wire(value, 4) == seq![
            (value / 0x100_0000 % 256) as u8,
            (value / 0x1_0000 % 256) as u8,
            (value / 0x100 % 256) as u8,
            (value % 256) as u8,
        ],
{
    reveal_with_fuel(be_wire, 5);
}

} // verus!
