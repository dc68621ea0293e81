//! Low-level wire primitives.
//!
//! Everything on the wire is big-endian (network byte order). Three composite encodings recur:
//!
//! * length-prefixed bytes: a 4-byte length followed by the raw bytes, not NUL-terminated;
//! * an `i32` vector: a 4-byte element count followed by that many `i32`s;
//! * fixed-width strings: exactly N raw bytes, used only by the hello greeting magic.

use crate::error::{ProtoError, Result};
use crate::text::string_from_utf8;
use crate::wire;
use vstd::arithmetic::power::*;
use vstd::prelude::*;
use vstd::utf8::*;

verus! {

/// Hard ceiling on any length-prefixed field, the same as the 4 MiB message cap. It keeps a
/// hostile peer from asking for a wild allocation.
pub const MAX_FIELD_LEN: usize = 4 * 1024 * 1024;

/// The number that at most eight big-endian digits spell.
fn number_of(digits: &[u8]) -> (value: u64)
    requires
        digits@.len() <= 8,
    ensures
        value == wire::be_value(digits@),
{
    let mut value: u64 = 0;
    let mut i: usize = 0;
    while i < digits.len()
        invariant
            i <= digits@.len() <= 8,
            value == wire::be_value(digits@.take(i as int)),
        decreases digits@.len() - i,
    {
        proof {
            let read = digits@.take(i as int);
            wire::lemma_be_value_bound(read);
            wire::lemma_widths();
            lemma_pow_increases(256, read.len(), 7);
            lemma_pow_adds(256, 7, 1);
            lemma_pow1(256);
            assert(digits@.take(i + 1).drop_last() =~= read);
        }
        value = value * 256 + digits[i] as u64;
        i = i + 1;
    }
    assert(digits@.take(i as int) =~= digits@);
    value
}

/// The low-order `width` big-endian digits of a number.
fn digits_of(value: u64, width: usize) -> (digits: Vec<u8>)
    ensures
        digits@ == wire::be_wire(value as nat, width as nat),
    decreases width,
{
    if width == 0 {
        Vec::new()
    } else {
        let mut digits = digits_of(value / 256, width - 1);
        digits.push((value % 256) as u8);
        digits
    }
}

/// The signed number with the same bits.
fn signed8_of(v: u8) -> (s: i8)
    ensures
        s == wire::signed8(v as nat),
{
    let s: i8 = v as i8;
    assert(s == if v < 0x80 { v as int } else { v - 0x100 }) by (bit_vector)
        requires
            s == v as i8,
    ;
    s
}

/// The signed number with the same bits.
fn signed16_of(v: u16) -> (s: i16)
    ensures
        s == wire::signed16(v as nat),
{
    let s: i16 = v as i16;
    assert(s == if v < 0x8000 { v as int } else { v - 0x1_0000 }) by (bit_vector)
        requires
            s == v as i16,
    ;
    s
}

/// The signed number with the same bits.
fn signed32_of(v: u32) -> (s: i32)
    ensures
        s == wire::signed32(v as nat),
{
    let s: i32 = v as i32;
    assert(s == if v < 0x8000_0000 { v as int } else { v - 0x1_0000_0000 }) by (bit_vector)
        requires
            s == v as i32,
    ;
    s
}

/// The unsigned number with the same bits.
fn bits8_of(v: i8) -> (u: u8)
    ensures
        u == wire::bits8(v),
{
    let u: u8 = v as u8;
    assert(u == if v < 0 { v + 0x100 } else { v as int }) by (bit_vector)
        requires
            u == v as u8,
    ;
    u
}

/// The unsigned number with the same bits.
fn bits16_of(v: i16) -> (u: u16)
    ensures
        u == wire::bits16(v),
{
    let u: u16 = v as u16;
    assert(u == if v < 0 { v + 0x1_0000 } else { v as int }) by (bit_vector)
        requires
            u == v as u16,
    ;
    u
}

/// The unsigned number with the same bits.
fn bits32_of(v: i32) -> (u: u32)
    ensures
        u == wire::bits32(v),
{
    let u: u32 = v as u32;
    assert(u == if v < 0 { v + 0x1_0000_0000 } else { v as int }) by (bit_vector)
        requires
            u == v as u32,
    ;
    u
}

/// Cursor-based reader over a borrowed payload slice.
#[derive(Debug)]
pub struct Reader<'a> {
    buf: &'a [u8],
    pos: usize,
}

impl<'a> Reader<'a> {
    #[verifier::type_invariant]
    spec fn in_bounds(self) -> bool {
        self.pos <= self.buf@.len()
    }

    /// The bytes that are still to be read.
    pub closed spec fn rest(self) -> Seq<u8> {
        self.buf@.skip(self.pos as int)
    }

    pub fn new(buf: &'a [u8]) -> (r: Self)
        ensures
            r.rest() == buf@,
    {
        assert(buf@.skip(0) =~= buf@);
        Self { buf, pos: 0 }
    }

    /// Number of unconsumed bytes.
    pub fn remaining(&self) -> (n: usize)
        ensures
            n == self.rest().len(),
    {
        proof {
            use_type_invariant(self);
        }
        self.buf.len() - self.pos
    }

    pub fn is_empty(&self) -> (empty: bool)
        ensures
            empty == (self.rest().len() == 0),
    {
        self.remaining() == 0
    }

    fn take(&mut self, n: usize) -> (r: Result<&'a [u8]>)
        ensures
            final(self).rest() == wire::read_raw(n as nat, old(self).rest()).1,
            match wire::read_raw(n as nat, old(self).rest()).0 {
                Ok(raw) => r matches Ok(slice) && slice@ == raw,
                Err(e) => r == Err::<&'a [u8], ProtoError>(e),
            },
    {
        proof {
            use_type_invariant(&*self);
        }
        if self.remaining() < n {
            return Err(ProtoError::UnexpectedEof { needed: n, had: self.remaining() });
        }
        let end: usize = self.buf.len() - (self.remaining() - n);
        let slice = vstd::slice::slice_subrange(self.buf, self.pos, end);
        assert(slice@ =~= self.rest().take(n as int));
        self.pos = end;
        assert(self.rest() =~= old(self).rest().skip(n as int));
        Ok(slice)
    }

    fn number(&mut self, width: usize) -> (r: Result<u64>)
        requires
            width <= 8,
        ensures
            final(self).rest() == wire::read_number(width as nat, old(self).rest()).1,
            match wire::read_number(width as nat, old(self).rest()).0 {
                Ok(v) => r matches Ok(n) && n == v && v < pow(256, width as nat),
                Err(e) => r == Err::<u64, ProtoError>(e),
            },
    {
        let digits = self.take(width)?;
        proof {
            wire::lemma_be_value_bound(digits@);
        }
        Ok(number_of(digits))
    }

    pub fn u8(&mut self) -> (r: Result<u8>)
        ensures
            final(self).rest() == wire::read_number(1, old(self).rest()).1,
            match wire::read_number(1, old(self).rest()).0 {
                Ok(v) => r matches Ok(n) && n == v,
                Err(e) => r == Err::<u8, ProtoError>(e),
            },
    {
        proof {
            wire::lemma_widths();
        }
        Ok(self.number(1)? as u8)
    }

    pub fn i8(&mut self) -> (r: Result<i8>)
        ensures
            final(self).rest() == wire::read_number(1, old(self).rest()).1,
            r == match wire::read_number(1, old(self).rest()).0 {
                Ok(v) => Ok::<i8, ProtoError>(wire::signed8(v)),
                Err(e) => Err(e),
            },
    {
        proof {
            wire::lemma_widths();
        }
        Ok(signed8_of(self.number(1)? as u8))
    }

    pub fn u16(&mut self) -> (r: Result<u16>)
        ensures
            final(self).rest() == wire::read_number(2, old(self).rest()).1,
            match wire::read_number(2, old(self).rest()).0 {
                Ok(v) => r matches Ok(n) && n == v,
                Err(e) => r == Err::<u16, ProtoError>(e),
            },
    {
        proof {
            wire::lemma_widths();
        }
        Ok(self.number(2)? as u16)
    }

    pub fn i16(&mut self) -> (r: Result<i16>)
        ensures
            final(self).rest() == wire::read_number(2, old(self).rest()).1,
            r == match wire::read_number(2, old(self).rest()).0 {
                Ok(v) => Ok::<i16, ProtoError>(wire::signed16(v)),
                Err(e) => Err(e),
            },
    {
        proof {
            wire::lemma_widths();
        }
        Ok(signed16_of(self.number(2)? as u16))
    }

    pub fn u32(&mut self) -> (r: Result<u32>)
        ensures
            final(self).rest() == wire::read_number(4, old(self).rest()).1,
            match wire::read_number(4, old(self).rest()).0 {
                Ok(v) => r matches Ok(n) && n == v,
                Err(e) => r == Err::<u32, ProtoError>(e),
            },
    {
        proof {
            wire::lemma_widths();
        }
        Ok(self.number(4)? as u32)
    }

    pub fn i32(&mut self) -> (r: Result<i32>)
        ensures
            final(self).rest() == wire::read_number(4, old(self).rest()).1,
            r == match wire::read_number(4, old(self).rest()).0 {
                Ok(v) => Ok::<i32, ProtoError>(wire::signed32(v)),
                Err(e) => Err(e),
            },
    {
        proof {
            wire::lemma_widths();
        }
        Ok(signed32_of(self.number(4)? as u32))
    }

    /// Read a big-endian `u64` (used for byte sizes that may exceed 4 GiB).
    pub fn u64(&mut self) -> (r: Result<u64>)
        ensures
            final(self).rest() == wire::read_number(8, old(self).rest()).1,
            match wire::read_number(8, old(self).rest()).0 {
                Ok(v) => r matches Ok(n) && n == v,
                Err(e) => r == Err::<u64, ProtoError>(e),
            },
    {
        self.number(8)
    }

    /// Read exactly `n` raw bytes (fixed-width field, e.g. the hello magic).
    pub fn fixed(&mut self, n: usize) -> (r: Result<&'a [u8]>)
        ensures
            final(self).rest() == wire::read_raw(n as nat, old(self).rest()).1,
            match wire::read_raw(n as nat, old(self).rest()).0 {
                Ok(raw) => r matches Ok(slice) && slice@ == raw,
                Err(e) => r == Err::<&'a [u8], ProtoError>(e),
            },
    {
        self.take(n)
    }

    /// Read a length-prefixed byte string.
    pub fn bytes(&mut self) -> (r: Result<Vec<u8>>)
        ensures
            final(self).rest() == wire::read_bytes(old(self).rest()).1,
            match wire::read_bytes(old(self).rest()).0 {
                Ok(bytes) => r matches Ok(v) && v@ == bytes,
                Err(e) => r == Err::<Vec<u8>, ProtoError>(e),
            },
    {
        let len = self.number(4)?;
        proof {
            wire::lemma_widths();
        }
        let len: usize = len as u32 as usize;
        if len > MAX_FIELD_LEN {
            return Err(ProtoError::TooLong { declared: len, max: MAX_FIELD_LEN });
        }
        Ok(vstd::slice::slice_to_vec(self.take(len)?))
    }

    /// Read a length-prefixed UTF-8 string.
    pub fn string(&mut self) -> (r: Result<String>)
        ensures
            final(self).rest() == wire::read_text(old(self).rest()).1,
            match wire::read_text(old(self).rest()).0 {
                Ok(text) => r matches Ok(s) && s@ == text,
                Err(e) => r == Err::<String, ProtoError>(e),
            },
    {
        let bytes = self.bytes()?;
        match string_from_utf8(bytes) {
            Some(text) => Ok(text),
            None => Err(ProtoError::InvalidUtf8),
        }
    }

    /// Read an `i32` vector: a count followed by that many big-endian `i32`s.
    pub fn i32_vec(&mut self) -> (r: Result<Vec<i32>>)
        ensures
            final(self).rest() == wire::read_ints(old(self).rest()).1,
            match wire::read_ints(old(self).rest()).0 {
                Ok(ints) => r matches Ok(v) && v@ == ints,
                Err(e) => r == Err::<Vec<i32>, ProtoError>(e),
            },
    {
        let count = self.number(4)?;
        proof {
            wire::lemma_widths();
        }
        let count: usize = count as u32 as usize;
        if count > MAX_FIELD_LEN / 4 {
            return Err(ProtoError::TooLong { declared: count, max: MAX_FIELD_LEN / 4 });
        }
        let ghost input = self.rest();
        let mut out: Vec<i32> = Vec::new();
        let mut i: usize = 0;
        while i < count
            invariant
                i <= count <= MAX_FIELD_LEN / 4,
                4 * i <= input.len(),
                self.rest() == input.skip(4 * i),
                out@ == Seq::new(i as nat, |k: int| wire::int_at(input, k)),
                wire::read_number(4, old(self).rest()) == (
                    Ok::<nat, ProtoError>(count as nat),
                    input,
                ),
            decreases count - i,
        {
            let ghost before = self.rest();
            assert(before.take(4) =~= input.subrange(4 * i, 4 * i + 4) || before.len() < 4);
            assert(before.skip(4) =~= input.skip(4 * (i + 1)) || before.len() < 4);
            match self.i32() {
                Ok(v) => {
                    out.push(v);
                    assert(out@ =~= Seq::new((i + 1) as nat, |k: int| wire::int_at(input, k)));
                },
                Err(e) => {
                    assert(before.len() == input.len() % 4);
                    return Err(e);
                },
            }
            i = i + 1;
        }
        Ok(out)
    }
}

/// Append-only writer building a payload buffer.
#[derive(Debug)]
pub struct Writer {
    buf: Vec<u8>,
}

impl View for Writer {
    type V = Seq<u8>;

    closed spec fn view(&self) -> Seq<u8> {
        self.buf@
    }
}

impl Default for Writer {
    fn default() -> (w: Self)
        ensures
            w@ == Seq::<u8>::empty(),
    {
        Writer { buf: Vec::new() }
    }
}

impl Writer {
    pub fn new() -> (w: Self)
        ensures
            w@ == Seq::<u8>::empty(),
    {
        Self::default()
    }

    /// Pre-seed with a 4-byte message opcode (or any fixed magic).
    pub fn with_code(code: &[u8; 4]) -> (w: Self)
        ensures
            w@ == code@,
    {
        let mut w = Self::new();
        w.raw(code);
        assert(w@ =~= code@);
        w
    }

    pub fn raw(&mut self, bytes: &[u8]) -> (w: &mut Self)
        ensures
            w@ == old(self)@ + bytes@,
            *final(self) == *final(w),
    {
        self.buf.extend_from_slice(bytes);
        assert(self.buf@ =~= old(self).buf@ + bytes@);
        self
    }

    pub fn u8(&mut self, v: u8) -> (w: &mut Self)
        ensures
            w@ == old(self)@ + wire::be_wire(v as nat, 1),
            *final(self) == *final(w),
    {
        self.buf.append(&mut digits_of(v as u64, 1));
        self
    }

    pub fn i8(&mut self, v: i8) -> (w: &mut Self)
        ensures
            w@ == old(self)@ + wire::be_wire(wire::bits8(v), 1),
            *final(self) == *final(w),
    {
        self.u8(bits8_of(v))
    }

    pub fn u16(&mut self, v: u16) -> (w: &mut Self)
        ensures
            w@ == old(self)@ + wire::be_wire(v as nat, 2),
            *final(self) == *final(w),
    {
        self.buf.append(&mut digits_of(v as u64, 2));
        self
    }

    pub fn i16(&mut self, v: i16) -> (w: &mut Self)
        ensures
            w@ == old(self)@ + wire::be_wire(wire::bits16(v), 2),
            *final(self) == *final(w),
    {
        self.u16(bits16_of(v))
    }

    pub fn u32(&mut self, v: u32) -> (w: &mut Self)
        ensures
            w@ == old(self)@ + wire::be_wire(v as nat, 4),
            *final(self) == *final(w),
    {
        self.buf.append(&mut digits_of(v as u64, 4));
        self
    }

    pub fn i32(&mut self, v: i32) -> (w: &mut Self)
        ensures
            w@ == old(self)@ + wire::be_wire(wire::bits32(v), 4),
            *final(self) == *final(w),
    {
        self.u32(bits32_of(v))
    }

    /// Write a big-endian `u64`.
    pub fn u64(&mut self, v: u64) -> (w: &mut Self)
        ensures
            w@ == old(self)@ + wire::be_wire(v as nat, 8),
            *final(self) == *final(w),
    {
        self.buf.append(&mut digits_of(v, 8));
        self
    }

    /// Write a length-prefixed byte string. The prefix holds the low 32 bits of the length.
    pub fn bytes(&mut self, b: &[u8]) -> (w: &mut Self)
        ensures
            w@ == old(self)@ + wire::bytes_wire(b@),
            *final(self) == *final(w),
    {
        self.buf.append(&mut digits_of(b.len() as u64, 4));
        self.buf.extend_from_slice(b);
        assert(self@ =~= old(self)@ + wire::bytes_wire(b@));
        self
    }

    /// Write a length-prefixed UTF-8 string.
    pub fn string(&mut self, s: &str) -> (w: &mut Self)
        ensures
            w@ == old(self)@ + wire::bytes_wire(encode_utf8(s@)),
            *final(self) == *final(w),
    {
        self.bytes(s.as_bytes())
    }

    /// Write an `i32` vector. The count is written as the low 32 bits of the length.
    pub fn i32_vec(&mut self, v: &[i32]) -> (w: &mut Self)
        ensures
            w@ == old(self)@ + wire::ints_wire(v@),
            *final(self) == *final(w),
    {
        self.buf.append(&mut digits_of(v.len() as u64, 4));
        let ghost start = self@;
        let mut i: usize = 0;
        while i < v.len()
            invariant
                i <= v@.len(),
                start == old(self)@ + wire::be_wire(v@.len(), 4),
                self@ == start + wire::ints_body(v@.take(i as int)),
            decreases v@.len() - i,
        {
            assert(v@.take(i + 1).drop_last() =~= v@.take(i as int));
            self.buf.append(&mut digits_of(bits32_of(v[i]) as u64, 4));
            i = i + 1;
            assert(self@ =~= start + wire::ints_body(v@.take(i as int)));
        }
        assert(v@.take(i as int) =~= v@);
        assert(self@ =~= old(self)@ + wire::ints_wire(v@));
        self
    }

    pub fn into_vec(self) -> (v: Vec<u8>)
        ensures
            v@ == self@,
    {
        self.buf
    }
}

} // verus!
